//! The move engine: for each file, where it goes and what must be done to put it there.
//!
//! The engine works on a model of the four destination folders (whether each exists and which
//! names it holds). A plan says what to do; the caller carries it out and, when that worked,
//! commits it, so that later files see the name taken.
use vstd::prelude::*;
use crate::category::Category;
use crate::error::OrganizerError;
use crate::naming::{is_taken, names_of, renamed, unique_name};
use crate::scan::FileInfo;
use crate::text::{opt_text, same_text};

verus! {

/// What happens when a file's name is already taken in its destination folder.
#[derive(Clone, Copy, Debug, PartialEq, Eq, Structural)]
pub enum ConflictPolicy {
    /// Leave both files where they are.
    Skip,
    /// Replace the file in the folder.
    Overwrite,
    /// Give the incoming file the first free name `stem_1.ext`, `stem_2.ext`, ...
    Rename,
}

/// The policy a command-line word selects.
pub open spec fn policy_named(s: Seq<char>) -> Option<ConflictPolicy> {
    if s == "skip"@ {
        Some(ConflictPolicy::Skip)
    } else if s == "overwrite"@ {
        Some(ConflictPolicy::Overwrite)
    } else if s == "rename"@ {
        Some(ConflictPolicy::Rename)
    } else {
        None
    }
}

impl ConflictPolicy {
    /// The policy named `skip`, `overwrite` or `rename`.
    pub fn parse(s: &str) -> (r: Option<ConflictPolicy>)
        ensures
            r == policy_named(s@),
    {
        if same_text(s, "skip") {
            Some(ConflictPolicy::Skip)
        } else if same_text(s, "overwrite") {
            Some(ConflictPolicy::Overwrite)
        } else if same_text(s, "rename") {
            Some(ConflictPolicy::Rename)
        } else {
            None
        }
    }
}

/// What became of one file.
#[derive(Clone, Debug)]
pub enum MoveOutcome {
    /// The file went (or, in a dry run, would go) into its folder under this name.
    Moved(String),
    /// The name was taken and the policy is to skip.
    Skipped,
    /// A file system operation failed; the run goes on with the next file.
    Failed(OrganizerError),
}

/// A destination folder in the model: whether it exists, and the names in it.
pub type FolderView = (bool, Seq<Seq<char>>);

/// A plan in the model: the destination name (none when skipped), and whether the folder is
/// to be created, an existing file replaced, and the file moved.
pub type PlanView = (Option<Seq<char>>, bool, bool, bool);

/// The destination name of a file called `name` under `policy`, given the names taken in its
/// folder; none when the file is skipped.
pub open spec fn decide(taken: Seq<Seq<char>>, name: Seq<char>, policy: ConflictPolicy) -> Option<
    Seq<char>,
> {
    if !taken.contains(name) {
        Some(name)
    } else {
        match policy {
            ConflictPolicy::Skip => None,
            ConflictPolicy::Overwrite => Some(name),
            ConflictPolicy::Rename => Some(renamed(name, taken)),
        }
    }
}

/// The plan for a file called `name`. A dry run decides the same and changes nothing.
pub open spec fn plan_of(folder: FolderView, name: Seq<char>, policy: ConflictPolicy, dry_run: bool) -> PlanView {
    let d = decide(folder.1, name, policy);
    let act = !dry_run && d is Some;
    (d, act && !folder.0, act && folder.1.contains(d->0), act)
}

/// The folder after a decision has been carried out.
pub open spec fn after(folder: FolderView, d: Option<Seq<char>>) -> FolderView {
    match d {
        Some(n) => (true, if folder.1.contains(n) { folder.1 } else { folder.1.push(n) }),
        None => folder,
    }
}

/// The category and name of each file, the part of a record that the engine reads.
pub open spec fn file_keys(files: Seq<FileInfo>) -> Seq<(Category, Seq<char>)> {
    files.map_values(|f: FileInfo| (f.category, f.name@))
}

/// The folders after each of `files` has been placed in turn.
pub open spec fn run_state(
    start: Seq<FolderView>,
    files: Seq<(Category, Seq<char>)>,
    policy: ConflictPolicy,
) -> Seq<FolderView>
    decreases files.len(),
{
    if files.len() == 0 {
        start
    } else {
        let prev = run_state(start, files.drop_last(), policy);
        let i = files.last().0.spec_index();
        prev.update(i, after(prev[i], decide(prev[i].1, files.last().1, policy)))
    }
}

/// The plans for `files`, each made against the folders as the files before it left them.
pub open spec fn run_plans(
    start: Seq<FolderView>,
    files: Seq<(Category, Seq<char>)>,
    policy: ConflictPolicy,
    dry_run: bool,
) -> Seq<PlanView>
    decreases files.len(),
{
    if files.len() == 0 {
        seq![]
    } else {
        let prev = run_state(start, files.drop_last(), policy);
        let i = files.last().0.spec_index();
        run_plans(start, files.drop_last(), policy, dry_run).push(
            plan_of(prev[i], files.last().1, policy, dry_run),
        )
    }
}

/// One destination folder: whether it exists, and the names of the files in it.
pub struct Folder {
    pub exists: bool,
    pub names: Vec<String>,
}

impl View for Folder {
    type V = FolderView;

    open spec fn view(&self) -> FolderView {
        (self.exists, names_of(self.names@))
    }
}

impl Folder {
    /// Records that a file went into the folder under `name`.
    fn place(&mut self, name: &String)
        requires
            old(self).names@.len() < usize::MAX,
        ensures
            final(self)@ == after(old(self)@, Some(name@)),
            final(self).names@.len() <= old(self).names@.len() + 1,
    {
        self.exists = true;
        if !is_taken(&self.names, name.as_str()) {
            self.names.push(name.clone());
            assert(names_of(self.names@) =~= names_of(old(self).names@).push(name@));
        }
    }
}

/// What to do with one file.
#[derive(Clone, Debug)]
pub struct MovePlan {
    /// The file's category, which names its folder.
    pub category: Category,
    /// The name the file gets in the folder; none when it is skipped.
    pub destination: Option<String>,
    /// Create the folder first.
    pub create_folder: bool,
    /// Remove the file of that name in the folder first.
    pub replace_existing: bool,
    /// Move the file.
    pub transfer: bool,
}

impl View for MovePlan {
    type V = PlanView;

    open spec fn view(&self) -> PlanView {
        (opt_text(self.destination), self.create_folder, self.replace_existing, self.transfer)
    }
}

impl MovePlan {
    /// The outcome of the plan once carried out: the failure of a file system step if there
    /// was one, else what the plan decided.
    pub fn finish(&self, failure: Option<OrganizerError>) -> (r: MoveOutcome)
        ensures
            failure matches Some(e) ==> r == MoveOutcome::Failed(e),
            failure is None && self.destination is None ==> r is Skipped,
            failure is None && self.destination is Some ==> (r matches MoveOutcome::Moved(n)
                && n@ == self.destination->0@),
    {
        match failure {
            Some(e) => MoveOutcome::Failed(e),
            None => match &self.destination {
                Some(n) => MoveOutcome::Moved(n.clone()),
                None => MoveOutcome::Skipped,
            },
        }
    }
}

/// The engine's model of the four destination folders under the root.
pub struct Destinations {
    pub multimedia: Folder,
    pub docs: Folder,
    pub compressed: Folder,
    pub misc: Folder,
}

impl View for Destinations {
    type V = Seq<FolderView>;

    open spec fn view(&self) -> Seq<FolderView> {
        seq![self.multimedia@, self.docs@, self.compressed@, self.misc@]
    }
}

impl Destinations {
    /// The largest number of names that any folder holds.
    pub open spec fn fill(&self) -> nat {
        let a = self.multimedia.names@.len();
        let b = self.docs.names@.len();
        let c = self.compressed.names@.len();
        let d = self.misc.names@.len();
        let ab = if a >= b { a } else { b };
        let cd = if c >= d { c } else { d };
        if ab >= cd { ab } else { cd }
    }

    /// Whether every folder can take `more` further names.
    pub fn has_room(&self, more: usize) -> (r: bool)
        ensures
            r == (self.fill() + more < usize::MAX),
    {
        let a = self.multimedia.names.len();
        let b = self.docs.names.len();
        let c = self.compressed.names.len();
        let d = self.misc.names.len();
        let ab = if a >= b { a } else { b };
        let cd = if c >= d { c } else { d };
        let m = if ab >= cd { ab } else { cd };
        more < usize::MAX - m
    }

    /// No folder exists yet.
    pub fn new() -> (r: Destinations)
        ensures
            r@ == seq![(false, Seq::<Seq<char>>::empty()); 4],
            r.fill() == 0,
    {
        let r = Destinations {
            multimedia: Folder { exists: false, names: Vec::new() },
            docs: Folder { exists: false, names: Vec::new() },
            compressed: Folder { exists: false, names: Vec::new() },
            misc: Folder { exists: false, names: Vec::new() },
        };
        assert(names_of(r.docs.names@) =~= Seq::<Seq<char>>::empty());
        assert(r@ =~= seq![(false, Seq::<Seq<char>>::empty()); 4]);
        r
    }

    /// Records that the folder of `category` exists and holds files of these names.
    pub fn record_folder(&mut self, category: Category, names: Vec<String>)
        ensures
            final(self)@ == old(self)@.update(category.spec_index(), (true, names_of(names@))),
    {
        let folder = Folder { exists: true, names };
        match category {
            Category::Multimedia => self.multimedia = folder,
            Category::Docs => self.docs = folder,
            Category::Compressed => self.compressed = folder,
            Category::Misc => self.misc = folder,
        }
        assert(self@ =~= old(self)@.update(category.spec_index(), (true, names_of(names@))));
    }

    fn folder(&self, category: Category) -> (r: &Folder)
        ensures
            r@ == self@[category.spec_index()],
            r.names@.len() <= self.fill(),
    {
        match category {
            Category::Multimedia => &self.multimedia,
            Category::Docs => &self.docs,
            Category::Compressed => &self.compressed,
            Category::Misc => &self.misc,
        }
    }

    /// The plan for one file under `policy`. The decision is the same in a dry run, which
    /// only leaves every step out.
    pub fn plan(&self, file: &FileInfo, policy: ConflictPolicy, dry_run: bool) -> (r: MovePlan)
        requires
            self.fill() < usize::MAX,
        ensures
            r.category == file.category,
            r@ == plan_of(self@[file.category.spec_index()], file.name@, policy, dry_run),
    {
        let folder = self.folder(file.category);
        let taken = is_taken(&folder.names, file.name.as_str());
        let destination = if !taken {
            Some(file.name.clone())
        } else {
            match policy {
                ConflictPolicy::Skip => None,
                ConflictPolicy::Overwrite => Some(file.name.clone()),
                ConflictPolicy::Rename => Some(unique_name(file.name.as_str(), &folder.names)),
            }
        };
        let act = !dry_run && destination.is_some();
        MovePlan {
            category: file.category,
            destination,
            create_folder: act && !folder.exists,
            replace_existing: act && taken && matches!(policy, ConflictPolicy::Overwrite),
            transfer: act,
        }
    }

    /// Records that a plan was carried out.
    pub fn commit(&mut self, plan: &MovePlan)
        requires
            old(self).fill() < usize::MAX,
        ensures
            final(self)@ == old(self)@.update(
                plan.category.spec_index(),
                after(old(self)@[plan.category.spec_index()], opt_text(plan.destination)),
            ),
            final(self).fill() <= old(self).fill() + 1,
    {
        match &plan.destination {
            None => {},
            Some(n) => match plan.category {
                Category::Multimedia => self.multimedia.place(n),
                Category::Docs => self.docs.place(n),
                Category::Compressed => self.compressed.place(n),
                Category::Misc => self.misc.place(n),
            },
        }
        assert(self@ =~= old(self)@.update(
            plan.category.spec_index(),
            after(old(self)@[plan.category.spec_index()], opt_text(plan.destination)),
        ));
    }
    /// Settles a plan once its steps were tried: a failure leaves the model as it was and
    /// gives a failed outcome; success commits the plan and gives what it decided.
    pub fn settle(&mut self, plan: &MovePlan, failure: Option<OrganizerError>) -> (r: MoveOutcome)
        requires
            old(self).fill() < usize::MAX,
        ensures
            failure is Some ==> final(self)@ == old(self)@,
            failure is None ==> final(self)@ == old(self)@.update(
                plan.category.spec_index(),
                after(old(self)@[plan.category.spec_index()], opt_text(plan.destination)),
            ),
            final(self).fill() <= old(self).fill() + 1,
            failure matches Some(e) ==> r == MoveOutcome::Failed(e),
            failure is None && plan.destination is None ==> r is Skipped,
            failure is None && plan.destination is Some ==> (r matches MoveOutcome::Moved(n)
                && n@ == plan.destination->0@),
    {
        if failure.is_none() {
            self.commit(plan);
        }
        plan.finish(failure)
    }

    /// Plans a whole run in scan order, committing each plan before the next file, as a dry
    /// run forecasts it and as a real run does when every step succeeds.
    pub fn plan_all(&mut self, files: &Vec<FileInfo>, policy: ConflictPolicy, dry_run: bool) -> (r:
        Vec<MovePlan>)
        requires
            old(self).fill() + files@.len() < usize::MAX,
        ensures
            r@.map_values(|p: MovePlan| p@) == run_plans(
                old(self)@,
                file_keys(files@),
                policy,
                dry_run,
            ),
            final(self)@ == run_state(old(self)@, file_keys(files@), policy),
    {
        let ghost start = self@;
        let ghost keys = file_keys(files@);
        let mut out: Vec<MovePlan> = Vec::new();
        let mut i: usize = 0;
        assert(keys.take(0) =~= Seq::<(Category, Seq<char>)>::empty());
        assert(out@.map_values(|p: MovePlan| p@) =~= Seq::<PlanView>::empty());
        while i < files.len()
            invariant
                keys == file_keys(files@),
                i <= files@.len(),
                self.fill() <= old(self).fill() + i,
                old(self).fill() + files@.len() < usize::MAX,
                start == old(self)@,
                self@ == run_state(start, keys.take(i as int), policy),
                out@.map_values(|p: MovePlan| p@) == run_plans(
                    start,
                    keys.take(i as int),
                    policy,
                    dry_run,
                ),
            decreases files.len() - i,
        {
            let plan = self.plan(&files[i], policy, dry_run);
            self.commit(&plan);
            let ghost done = keys.take(i + 1);
            assert(done.drop_last() =~= keys.take(i as int));
            assert(done.last() == (files@[i as int].category, files@[i as int].name@));
            out.push(plan);
            i = i + 1;
            assert(out@.map_values(|p: MovePlan| p@) =~= run_plans(
                start,
                keys.take(i as int),
                policy,
                dry_run,
            ));
        }
        assert(keys.take(files@.len() as int) =~= keys);
        out
    }
}

/// A decision carried out takes no name out of its folder.
proof fn lemma_after_keeps(folder: FolderView, d: Option<Seq<char>>, x: Seq<char>)
    requires
        folder.1.contains(x),
    ensures
        after(folder, d).1.contains(x),
{
    if let Some(n) = d {
        if !folder.1.contains(n) {
            let j = choose|j: int| 0 <= j < folder.1.len() && folder.1[j] == x;
            assert(folder.1.push(n)[j] == x);
        }
    }
}

/// A run keeps the number of folders and takes no name out of any folder.
pub proof fn lemma_run_keeps_names(
    start: Seq<FolderView>,
    files: Seq<(Category, Seq<char>)>,
    policy: ConflictPolicy,
    c: int,
    x: Seq<char>,
)
    requires
        start.len() == 4,
        0 <= c < 4,
        start[c].1.contains(x),
    ensures
        run_state(start, files, policy).len() == 4,
        run_state(start, files, policy)[c].1.contains(x),
    decreases files.len(),
{
    if files.len() > 0 {
        lemma_run_keeps_names(start, files.drop_last(), policy, c, x);
        let prev = run_state(start, files.drop_last(), policy);
        let i = files.last().0.spec_index();
        if i == c {
            lemma_after_keeps(prev[i], decide(prev[i].1, files.last().1, policy), x);
        }
    }
}

proof fn lemma_run_len(start: Seq<FolderView>, files: Seq<(Category, Seq<char>)>, policy: ConflictPolicy)
    requires
        start.len() == 4,
    ensures
        run_state(start, files, policy).len() == 4,
        run_plans(start, files, policy, true).len() == files.len(),
        run_plans(start, files, policy, false).len() == files.len(),
    decreases files.len(),
{
    if files.len() > 0 {
        lemma_run_len(start, files.drop_last(), policy);
    }
}

/// After a run, every file of it has its name in its folder: it was placed there, or the name
/// was there already.
pub proof fn lemma_run_holds_files(
    start: Seq<FolderView>,
    files: Seq<(Category, Seq<char>)>,
    policy: ConflictPolicy,
)
    requires
        start.len() == 4,
    ensures
        forall|i: int|
            0 <= i < files.len() ==> run_state(start, files, policy)[(#[trigger] files[i]).0.spec_index()].1.contains(
                files[i].1,
            ),
    decreases files.len(),
{
    if files.len() > 0 {
        let init = files.drop_last();
        lemma_run_holds_files(start, init, policy);
        lemma_run_len(start, init, policy);
        let prev = run_state(start, init, policy);
        let c = files.last().0.spec_index();
        let d = decide(prev[c].1, files.last().1, policy);
        assert forall|i: int| 0 <= i < files.len() implies run_state(start, files, policy)[(
        #[trigger] files[i]).0.spec_index()].1.contains(files[i].1) by {
            let k = files[i].0.spec_index();
            if i < files.len() - 1 {
                assert(files[i] == init[i]);
                if k == c {
                    lemma_after_keeps(prev[c], d, files[i].1);
                }
            } else if prev[c].1.contains(files[i].1) {
                lemma_after_keeps(prev[c], d, files[i].1);
            } else {
                assert(prev[c].1.push(files[i].1).last() == files[i].1);
            }
        }
    }
}

/// A skip run over files whose names are all taken already skips each of them and changes no
/// folder.
pub proof fn lemma_skip_taken(start: Seq<FolderView>, files: Seq<(Category, Seq<char>)>, dry_run: bool)
    requires
        start.len() == 4,
        forall|j: int|
            0 <= j < files.len() ==> start[(#[trigger] files[j]).0.spec_index()].1.contains(files[j].1),
    ensures
        run_state(start, files, ConflictPolicy::Skip) == start,
        forall|j: int|
            0 <= j < files.len() ==> (#[trigger] run_plans(start, files, ConflictPolicy::Skip, dry_run)[j]).0 is None,
    decreases files.len(),
{
    if files.len() > 0 {
        let init = files.drop_last();
        assert forall|j: int| 0 <= j < init.len() implies start[(#[trigger] init[j]).0.spec_index()].1.contains(
            init[j].1,
        ) by {
            assert(init[j] == files[j]);
        }
        lemma_skip_taken(start, init, dry_run);
        lemma_run_len(start, init, ConflictPolicy::Skip);
        let c = files.last().0.spec_index();
        assert(files.last() == files[files.len() - 1]);
        assert(start.update(c, start[c]) =~= start);
        assert forall|j: int| 0 <= j < files.len() implies (#[trigger] run_plans(
            start,
            files,
            ConflictPolicy::Skip,
            dry_run,
        )[j]).0 is None by {
            if j < files.len() - 1 {
                assert(run_plans(start, files, ConflictPolicy::Skip, dry_run)[j] == run_plans(
                    start,
                    init,
                    ConflictPolicy::Skip,
                    dry_run,
                )[j]);
            }
        }
    }
}

/// Under the skip policy no plan replaces a file.
pub proof fn lemma_skip_never_replaces(
    start: Seq<FolderView>,
    files: Seq<(Category, Seq<char>)>,
    dry_run: bool,
)
    requires
        start.len() == 4,
    ensures
        forall|i: int|
            0 <= i < files.len() ==> !(#[trigger] run_plans(start, files, ConflictPolicy::Skip, dry_run)[i]).2,
    decreases files.len(),
{
    if files.len() > 0 {
        lemma_skip_never_replaces(start, files.drop_last(), dry_run);
        lemma_run_len(start, files.drop_last(), ConflictPolicy::Skip);
    }
}

/// Organizing twice with the skip policy moves each file at most once: any files of the first
/// run met again by a second run are all skipped and leave the folders as they were, and no
/// plan of either run replaces a file.
pub proof fn lemma_skip_twice(
    start: Seq<FolderView>,
    files: Seq<(Category, Seq<char>)>,
    again: Seq<(Category, Seq<char>)>,
    dry_run: bool,
)
    requires
        start.len() == 4,
        forall|j: int|
            0 <= j < again.len() ==> exists|i: int| 0 <= i < files.len() && files[i] == #[trigger] again[j],
    ensures
        run_state(run_state(start, files, ConflictPolicy::Skip), again, ConflictPolicy::Skip)
            == run_state(start, files, ConflictPolicy::Skip),
        forall|j: int|
            0 <= j < again.len() ==> (#[trigger] run_plans(
                run_state(start, files, ConflictPolicy::Skip),
                again,
                ConflictPolicy::Skip,
                dry_run,
            )[j]).0 is None,
        forall|i: int|
            0 <= i < files.len() ==> !(#[trigger] run_plans(start, files, ConflictPolicy::Skip, dry_run)[i]).2,
{
    let s1 = run_state(start, files, ConflictPolicy::Skip);
    lemma_run_len(start, files, ConflictPolicy::Skip);
    lemma_run_holds_files(start, files, ConflictPolicy::Skip);
    assert forall|j: int| 0 <= j < again.len() implies s1[(#[trigger] again[j]).0.spec_index()].1.contains(
        again[j].1,
    ) by {
        let i = choose|i: int| 0 <= i < files.len() && files[i] == again[j];
        assert(s1[files[i].0.spec_index()].1.contains(files[i].1));
    }
    lemma_skip_taken(s1, again, dry_run);
    lemma_skip_never_replaces(start, files, dry_run);
}

/// A dry run decides exactly what a real run decides, file by file, destination names
/// included, and plans no file system step.
pub proof fn lemma_dry_run_parity(
    start: Seq<FolderView>,
    files: Seq<(Category, Seq<char>)>,
    policy: ConflictPolicy,
)
    ensures
        run_plans(start, files, policy, true).len() == files.len(),
        run_plans(start, files, policy, false).len() == files.len(),
        forall|i: int|
            0 <= i < files.len() ==> (#[trigger] run_plans(start, files, policy, true)[i]).0
                == run_plans(start, files, policy, false)[i].0,
        forall|i: int|
            0 <= i < files.len() ==> !(#[trigger] run_plans(start, files, policy, true)[i]).1 && !run_plans(
                start,
                files,
                policy,
                true,
            )[i].2 && !run_plans(start, files, policy, true)[i].3,
    decreases files.len(),
{
    if files.len() > 0 {
        lemma_dry_run_parity(start, files.drop_last(), policy);
    }
}

} // verus!
