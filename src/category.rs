//! The classifier: from a content type to one of four categories.
use vstd::prelude::*;
use vstd::string::*;
use crate::text::{opt_text, same_text};

verus! {

/// The four destination groupings. Each also names a folder under the organized root.
#[derive(Clone, Copy, Debug, PartialEq, Eq, Structural)]
pub enum Category {
    Multimedia,
    Docs,
    Compressed,
    Misc,
}

/// How many categories there are.
pub const CATEGORY_COUNT: usize = 4;

impl Category {
    /// The position of the category in the fixed display order.
    pub open spec fn spec_index(self) -> int {
        match self {
            Category::Multimedia => 0,
            Category::Docs => 1,
            Category::Compressed => 2,
            Category::Misc => 3,
        }
    }

    /// The category at a position of the fixed display order.
    pub open spec fn spec_at(i: int) -> Category {
        if i == 0 {
            Category::Multimedia
        } else if i == 1 {
            Category::Docs
        } else if i == 2 {
            Category::Compressed
        } else {
            Category::Misc
        }
    }

    /// The folder name of the category.
    pub open spec fn spec_name(self) -> Seq<char> {
        match self {
            Category::Multimedia => "Multimedia"@,
            Category::Docs => "Docs"@,
            Category::Compressed => "Compressed"@,
            Category::Misc => "Misc"@,
        }
    }

    pub fn index(&self) -> (r: usize)
        ensures
            r == self.spec_index(),
            r < CATEGORY_COUNT,
            Category::spec_at(r as int) == *self,
    {
        match self {
            Category::Multimedia => 0,
            Category::Docs => 1,
            Category::Compressed => 2,
            Category::Misc => 3,
        }
    }

    /// The category at position `i` of the display order, if there is one.
    pub fn at(i: usize) -> (r: Option<Category>)
        ensures
            i < CATEGORY_COUNT <==> r.is_some(),
            r.is_some() ==> r.unwrap() == Category::spec_at(i as int) && r.unwrap().spec_index()
                == i,
    {
        if i == 0 {
            Some(Category::Multimedia)
        } else if i == 1 {
            Some(Category::Docs)
        } else if i == 2 {
            Some(Category::Compressed)
        } else if i == 3 {
            Some(Category::Misc)
        } else {
            None
        }
    }

    /// The folder name of the category.
    pub fn name(&self) -> (r: &'static str)
        ensures
            r@ == self.spec_name(),
    {
        match self {
            Category::Multimedia => "Multimedia",
            Category::Docs => "Docs",
            Category::Compressed => "Compressed",
            Category::Misc => "Misc",
        }
    }

    /// The category whose folder carries exactly this name, if any.
    pub fn from_name(s: &str) -> (r: Option<Category>)
        ensures
            r == category_named(s@),
    {
        if same_text(s, "Multimedia") {
            Some(Category::Multimedia)
        } else if same_text(s, "Docs") {
            Some(Category::Docs)
        } else if same_text(s, "Compressed") {
            Some(Category::Compressed)
        } else if same_text(s, "Misc") {
            Some(Category::Misc)
        } else {
            None
        }
    }
}

/// The category whose folder carries exactly the name `s`, if any.
pub open spec fn category_named(s: Seq<char>) -> Option<Category> {
    if s == "Multimedia"@ {
        Some(Category::Multimedia)
    } else if s == "Docs"@ {
        Some(Category::Docs)
    } else if s == "Compressed"@ {
        Some(Category::Compressed)
    } else if s == "Misc"@ {
        Some(Category::Misc)
    } else {
        None
    }
}

/// The fixed table of known content types, matched exactly and case-sensitively.
pub open spec fn content_table() -> Seq<(Seq<char>, Category)> {
    seq![
        ("image/png"@, Category::Multimedia),
        ("image/jpeg"@, Category::Multimedia),
        ("image/gif"@, Category::Multimedia),
        ("audio/mpeg"@, Category::Multimedia),
        ("audio/ogg"@, Category::Multimedia),
        ("video/mp4"@, Category::Multimedia),
        ("video/webm"@, Category::Multimedia),
        ("application/zip"@, Category::Compressed),
        ("application/x-7z-compressed"@, Category::Compressed),
        ("application/x-tar"@, Category::Compressed),
        ("application/vnd.openxmlformats-officedocument.wordprocessingml.document"@, Category::Docs),
        ("application/vnd.openxmlformats-officedocument.spreadsheetml.sheet"@, Category::Docs),
        ("application/vnd.openxmlformats-officedocument.presentationml.presentation"@, Category::Docs),
        ("application/pdf"@, Category::Docs),
        ("text/html"@, Category::Docs),
        ("text/csv"@, Category::Docs),
        ("text/xml"@, Category::Docs),
        ("text/plain"@, Category::Docs),
    ]
}

/// The category of the first entry of `table` whose content type is `t`.
pub open spec fn lookup(table: Seq<(Seq<char>, Category)>, t: Seq<char>) -> Option<Category>
    decreases table.len(),
{
    if table.len() == 0 {
        None
    } else if table[0].0 == t {
        Some(table[0].1)
    } else {
        lookup(table.drop_first(), t)
    }
}

/// The category of a file with the given content type: the table's entry, or `Misc` when the
/// type is absent or unknown.
pub open spec fn category_of(content_type: Option<Seq<char>>) -> Category {
    match content_type {
        Some(t) => match lookup(content_table(), t) {
            Some(c) => c,
            None => Category::Misc,
        },
        None => Category::Misc,
    }
}

/// The first entry whose content type matches decides, so a content type that occurs once in
/// the table gets that entry's category.
proof fn lemma_lookup_unique_key(table: Seq<(Seq<char>, Category)>, i: int)
    requires
        0 <= i < table.len(),
        forall|j: int| 0 <= j < i ==> (#[trigger] table[j]).0 != table[i].0,
    ensures
        lookup(table, table[i].0) == Some(table[i].1),
    decreases table.len(),
{
    if i > 0 {
        let rest = table.drop_first();
        assert forall|j: int| 0 <= j < i - 1 implies (#[trigger] rest[j]).0 != rest[i - 1].0 by {
            assert(rest[j] == table[j + 1]);
        }
        lemma_lookup_unique_key(rest, i - 1);
    }
}

/// A content type that no entry carries is not found.
proof fn lemma_lookup_absent(table: Seq<(Seq<char>, Category)>, t: Seq<char>)
    requires
        forall|j: int| 0 <= j < table.len() ==> (#[trigger] table[j]).0 != t,
    ensures
        lookup(table, t).is_none(),
    decreases table.len(),
{
    if table.len() > 0 {
        let rest = table.drop_first();
        assert forall|j: int| 0 <= j < rest.len() implies (#[trigger] rest[j]).0 != t by {
            assert(rest[j] == table[j + 1]);
        }
        lemma_lookup_absent(rest, t);
    }
}

/// No entry of `table` at a position in `lo .. hi` carries the content type `t`.
pub open spec fn absent_in(table: Seq<(Seq<char>, Category)>, t: Seq<char>, lo: int, hi: int) -> bool
    decreases hi - lo,
{
    lo >= hi || (table[lo].0 != t && absent_in(table, t, lo + 1, hi))
}

/// No two entries of `table` at positions from `lo` on carry the same content type.
pub open spec fn distinct_from(table: Seq<(Seq<char>, Category)>, lo: int) -> bool
    decreases table.len() - lo,
{
    lo >= table.len() || (absent_in(table, table[lo].0, lo + 1, table.len() as int)
        && distinct_from(table, lo + 1))
}

proof fn lemma_absent_in(table: Seq<(Seq<char>, Category)>, t: Seq<char>, lo: int, hi: int, i: int)
    requires
        absent_in(table, t, lo, hi),
        lo <= i < hi,
    ensures
        table[i].0 != t,
    decreases hi - lo,
{
    if i > lo {
        lemma_absent_in(table, t, lo + 1, hi, i);
    }
}

proof fn lemma_distinct_from(table: Seq<(Seq<char>, Category)>, lo: int, j: int, i: int)
    requires
        distinct_from(table, lo),
        0 <= lo <= j < i < table.len(),
    ensures
        table[j].0 != table[i].0,
    decreases j - lo,
{
    if j == lo {
        lemma_absent_in(table, table[lo].0, lo + 1, table.len() as int, i);
    } else {
        lemma_distinct_from(table, lo + 1, j, i);
    }
}

/// The fixed table repeats no content type.
proof fn lemma_table_keys_distinct()
    ensures
        forall|i: int, j: int|
            0 <= j < i < content_table().len() ==> (#[trigger] content_table()[j]).0 != (
            #[trigger] content_table()[i]).0,
{
    reveal_with_fuel(distinct_from, 19);
    reveal_with_fuel(absent_in, 19);
    // Content types of different lengths differ by their lengths; those of equal length by
    // the characters stated below.
    reveal_strlit("image/png");
    reveal_strlit("image/jpeg");
    reveal_strlit("image/gif");
    reveal_strlit("audio/mpeg");
    reveal_strlit("audio/ogg");
    reveal_strlit("video/mp4");
    reveal_strlit("video/webm");
    reveal_strlit("application/zip");
    reveal_strlit("application/x-7z-compressed");
    reveal_strlit("application/x-tar");
    reveal_strlit("application/vnd.openxmlformats-officedocument.wordprocessingml.document");
    reveal_strlit("application/vnd.openxmlformats-officedocument.spreadsheetml.sheet");
    reveal_strlit("application/vnd.openxmlformats-officedocument.presentationml.presentation");
    reveal_strlit("application/pdf");
    reveal_strlit("text/html");
    reveal_strlit("text/csv");
    reveal_strlit("text/xml");
    reveal_strlit("text/plain");
    assert("image/png"@.len() == 9);
    assert("image/jpeg"@.len() == 10);
    assert("image/gif"@.len() == 9);
    assert("audio/mpeg"@.len() == 10);
    assert("audio/ogg"@.len() == 9);
    assert("video/mp4"@.len() == 9);
    assert("video/webm"@.len() == 10);
    assert("application/zip"@.len() == 15);
    assert("application/x-7z-compressed"@.len() == 27);
    assert("application/x-tar"@.len() == 17);
    assert("application/vnd.openxmlformats-officedocument.wordprocessingml.document"@.len() == 71);
    assert("application/vnd.openxmlformats-officedocument.spreadsheetml.sheet"@.len() == 65);
    assert("application/vnd.openxmlformats-officedocument.presentationml.presentation"@.len() == 73);
    assert("application/pdf"@.len() == 15);
    assert("text/html"@.len() == 9);
    assert("text/csv"@.len() == 8);
    assert("text/xml"@.len() == 8);
    assert("text/plain"@.len() == 10);
    assert("application/pdf"@[12] == 'p');
    assert("application/zip"@[12] == 'z');
    assert("audio/mpeg"@[0] == 'a');
    assert("audio/ogg"@[0] == 'a');
    assert("image/gif"@[0] == 'i');
    assert("image/gif"@[6] == 'g');
    assert("image/jpeg"@[0] == 'i');
    assert("image/png"@[0] == 'i');
    assert("image/png"@[6] == 'p');
    assert("text/csv"@[5] == 'c');
    assert("text/html"@[0] == 't');
    assert("text/plain"@[0] == 't');
    assert("text/xml"@[5] == 'x');
    assert("video/mp4"@[0] == 'v');
    assert("video/webm"@[0] == 'v');
    assert(content_table().len() == 18);
    assert(distinct_from(content_table(), 0));
    assert forall|i: int, j: int| 0 <= j < i < content_table().len() implies (
    #[trigger] content_table()[j]).0 != (#[trigger] content_table()[i]).0 by {
        lemma_distinct_from(content_table(), 0, j, i);
    }
}

/// Every content type of the table is classified as the table says; any other content type,
/// and a missing one, is classified as `Misc`.
pub proof fn lemma_classification(t: Seq<char>)
    ensures
        forall|i: int|
            0 <= i < content_table().len() ==> category_of(Some(#[trigger] content_table()[i].0))
                == content_table()[i].1,
        (forall|i: int| 0 <= i < content_table().len() ==> content_table()[i].0 != t)
            ==> category_of(Some(t)) == Category::Misc,
        category_of(None) == Category::Misc,
{
    lemma_table_keys_distinct();
    assert forall|i: int| 0 <= i < content_table().len() implies category_of(
        Some(#[trigger] content_table()[i].0),
    ) == content_table()[i].1 by {
        lemma_lookup_unique_key(content_table(), i);
    }
    if forall|i: int| 0 <= i < content_table().len() ==> content_table()[i].0 != t {
        lemma_lookup_absent(content_table(), t);
    }
}

/// The table as executable data.
fn table_entries() -> (r: Vec<(&'static str, Category)>)
    ensures
        r@.len() == content_table().len(),
        forall|i: int|
            0 <= i < r@.len() ==> (#[trigger] r@[i]).0@ == content_table()[i].0 && r@[i].1
                == content_table()[i].1,
{
    let r = vec![
        ("image/png", Category::Multimedia),
        ("image/jpeg", Category::Multimedia),
        ("image/gif", Category::Multimedia),
        ("audio/mpeg", Category::Multimedia),
        ("audio/ogg", Category::Multimedia),
        ("video/mp4", Category::Multimedia),
        ("video/webm", Category::Multimedia),
        ("application/zip", Category::Compressed),
        ("application/x-7z-compressed", Category::Compressed),
        ("application/x-tar", Category::Compressed),
        ("application/vnd.openxmlformats-officedocument.wordprocessingml.document", Category::Docs),
        ("application/vnd.openxmlformats-officedocument.spreadsheetml.sheet", Category::Docs),
        ("application/vnd.openxmlformats-officedocument.presentationml.presentation", Category::Docs),
        ("application/pdf", Category::Docs),
        ("text/html", Category::Docs),
        ("text/csv", Category::Docs),
        ("text/xml", Category::Docs),
        ("text/plain", Category::Docs),
    ];
    r
}

/// The category of a file with the given content type.
pub fn category_for(content_type: &Option<String>) -> (r: Category)
    ensures
        r == category_of(opt_text(*content_type)),
{
    match content_type {
        None => Category::Misc,
        Some(t) => {
            assert(opt_text(*content_type) == Some(t@));
            let table = table_entries();
            let ghost full = content_table();
            let mut i: usize = 0;
            assert(full.subrange(0, full.len() as int) =~= full);
            while i < table.len()
                invariant
                    opt_text(*content_type) == Some(t@),
                    full == content_table(),
                    table@.len() == full.len(),
                    forall|k: int|
                        0 <= k < table@.len() ==> (#[trigger] table@[k]).0@ == full[k].0
                            && table@[k].1 == full[k].1,
                    0 <= i <= table@.len(),
                    lookup(full, t@) == lookup(full.subrange(i as int, full.len() as int), t@),
                decreases table.len() - i,
            {
                let ghost rest = full.subrange(i as int, full.len() as int);
                assert(rest.drop_first() =~= full.subrange(i + 1, full.len() as int));
                assert(rest[0] == full[i as int]);
                if same_text(table[i].0, t.as_str()) {
                    assert(table@[i as int].0@ == full[i as int].0);
                    assert(rest.len() > 0 && rest[0].0 == t@);
                    assert(lookup(rest, t@) == Some(rest[0].1));
                    return table[i].1;
                }
                i = i + 1;
            }
            Category::Misc
        },
    }
}

/// The folder name for a file with the given content type.
pub fn categorize_file(mime_type: &Option<String>) -> (r: &'static str)
    ensures
        r@ == category_of(opt_text(*mime_type)).spec_name(),
{
    category_for(mime_type).name()
}

} // verus!
