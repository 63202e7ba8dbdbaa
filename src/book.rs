use std::collections::HashMap;
use vstd::prelude::*;
use vstd::string::*;
use crate::paths::{file_name, join, join_path, path_file_name};

verus! {

broadcast use vstd::std_specs::hash::group_hash_axioms;

/// One leaf document of a book.
pub struct Chapter {
    pub name: String,
    pub content: String,
    /// The section number the book assigned, one entry per level.
    pub number: Option<Vec<u32>>,
    /// Path of the chapter's file, relative to the book's source directory.
    pub path: String,
    pub parent_names: Vec<String>,
}

/// A chapter as plain values.
pub struct ChapterView {
    pub name: Seq<char>,
    pub content: Seq<char>,
    pub number: Option<Seq<u32>>,
    pub path: Seq<char>,
    pub parent_names: Seq<Seq<char>>,
}

impl View for Chapter {
    type V = ChapterView;

    open spec fn view(&self) -> ChapterView {
        ChapterView {
            name: self.name@,
            content: self.content@,
            number: match self.number {
                Some(n) => Some(n@),
                None => None,
            },
            path: self.path@,
            parent_names: self.parent_names.deep_view(),
        }
    }
}

/// A top-level entry of a book: a chapter or a divider between groups of them.
pub enum BookItem {
    Chapter(Chapter),
    Separator,
}

/// A loaded book: the directory its chapter files live in and its top-level entries.
pub struct Book {
    pub source_dir: String,
    pub items: Vec<BookItem>,
}

/// A top-level entry as plain values: the chapter, or nothing for a separator.
pub open spec fn entry_of(item: BookItem) -> Option<ChapterView> {
    match item {
        BookItem::Chapter(c) => Some(c@),
        BookItem::Separator => None,
    }
}

/// The chapters among `items`, in document order.
pub open spec fn chapters_of(items: Seq<BookItem>) -> Seq<ChapterView>
    decreases items.len(),
{
    if items.len() == 0 {
        Seq::empty()
    } else {
        let prev = chapters_of(items.drop_last());
        match items.last() {
            BookItem::Chapter(c) => prev.push(c@),
            BookItem::Separator => prev,
        }
    }
}

/// The first segment of a chapter's section number; 0 when it has none.
pub open spec fn first_number(c: ChapterView) -> u32 {
    match c.number {
        Some(n) => if n.len() > 0 { n[0] } else { 0 },
        None => 0,
    }
}

/// A chapter carries a section number with at least one segment.
pub open spec fn is_numbered(c: ChapterView) -> bool {
    match c.number {
        Some(n) => n.len() > 0,
        None => false,
    }
}

/// Every chapter in `chs` carries a section number.
pub open spec fn all_numbered(chs: Seq<ChapterView>) -> bool {
    forall|i: int| 0 <= i < chs.len() ==> is_numbered(#[trigger] chs[i])
}

/// Each chapter keyed by the first segment of its number; a later chapter
/// replaces an earlier one under the same key.
pub open spec fn index_of(chs: Seq<ChapterView>) -> Map<u32, ChapterView>
    decreases chs.len(),
{
    if chs.len() == 0 {
        Map::empty()
    } else {
        index_of(chs.drop_last()).insert(first_number(chs.last()), chs.last())
    }
}

/// The line of the summary file that lists the chapter in `file` under `name`.
pub open spec fn summary_entry_of(file: Seq<char>, name: Seq<char>) -> Seq<char> {
    "- ["@ + name + "](./"@ + file + ")\n"@
}

/// A summary entry is one line: it ends in a newline and holds no other,
/// as long as the name and the file name hold none.
pub proof fn lemma_summary_entry_one_line(file: Seq<char>, name: Seq<char>)
    requires
        forall|i: int| 0 <= i < file.len() ==> file[i] != '\n',
        forall|i: int| 0 <= i < name.len() ==> name[i] != '\n',
    ensures
        summary_entry_of(file, name).last() == '\n',
        forall|i: int| 0 <= i < summary_entry_of(file, name).len() - 1
            ==> summary_entry_of(file, name)[i] != '\n',
{
    reveal_strlit("- [");
    reveal_strlit("](./");
    reveal_strlit(")\n");
    let e = summary_entry_of(file, name);
    let a = "- ["@;
    let b = "](./"@;
    let c = ")\n"@;
    assert(e =~= a + name + b + file + c);
    assert forall|i: int| 0 <= i < e.len() - 1 implies e[i] != '\n' by {
        if i < a.len() {
            assert(e[i] == a[i]);
        } else if i < a.len() + name.len() {
            assert(e[i] == name[i - a.len()]);
        } else if i < a.len() + name.len() + b.len() {
            assert(e[i] == b[i - a.len() - name.len()]);
        } else if i < a.len() + name.len() + b.len() + file.len() {
            assert(e[i] == file[i - a.len() - name.len() - b.len()]);
        } else {
            assert(e[i] == c[i - a.len() - name.len() - b.len() - file.len()]);
        }
    }
}

/// The name under which a book keeps its table of contents.
pub open spec fn summary_file_name() -> Seq<char> {
    "SUMMARY.md"@
}

impl Chapter {
    /// A new chapter with no section number yet.
    pub fn new(name: &str, content: String, path: String, parent_names: Vec<String>) -> (r: Chapter)
        ensures
            r@ == (ChapterView {
                name: name@,
                content: content@,
                number: None,
                path: path@,
                parent_names: parent_names.deep_view(),
            }),
    {
        Chapter { name: String::from_str(name), content, number: None, path, parent_names }
    }

    /// A copy of the chapter.
    pub fn snapshot(&self) -> (r: Chapter)
        ensures
            r@ == self@,
    {
        let number = match &self.number {
            Some(n) => Some(n.clone()),
            None => None,
        };
        let parent_names = self.parent_names.clone();
        proof {
            assert(parent_names.deep_view() =~= self.parent_names.deep_view());
        }
        let r = Chapter {
            name: self.name.clone(),
            content: self.content.clone(),
            number,
            path: self.path.clone(),
            parent_names,
        };
        assert(r@.number == self@.number);
        r
    }
}


/// The index holds exactly one entry per distinct first section segment among
/// the chapters, and the entry under a key is the last chapter in document
/// order whose number starts with it.
pub proof fn lemma_index_one_per_number(chs: Seq<ChapterView>)
    ensures
        forall|k: u32|
            #[trigger] index_of(chs).contains_key(k) <==> exists|i: int|
                0 <= i < chs.len() && first_number(#[trigger] chs[i]) == k,
        forall|k: u32|
            #[trigger] index_of(chs).contains_key(k) ==> exists|i: int|
                0 <= i < chs.len() && chs[i] == index_of(chs)[k] && first_number(chs[i]) == k
                    && forall|j: int| i < j < chs.len() ==> first_number(#[trigger] chs[j]) != k,
    decreases chs.len(),
{
    if chs.len() > 0 {
        let prev = chs.drop_last();
        lemma_index_one_per_number(prev);
        let last = chs.len() - 1;
        assert forall|k: u32| #[trigger] index_of(chs).contains_key(k) <==> exists|i: int|
            0 <= i < chs.len() && first_number(#[trigger] chs[i]) == k by {
            if index_of(chs).contains_key(k) && k != first_number(chs.last()) {
                assert(index_of(prev).contains_key(k));
                let i = choose|i: int| 0 <= i < prev.len() && first_number(#[trigger] prev[i]) == k;
                assert(chs[i] == prev[i]);
            }
            if exists|i: int| 0 <= i < chs.len() && first_number(#[trigger] chs[i]) == k {
                let i = choose|i: int| 0 <= i < chs.len() && first_number(#[trigger] chs[i]) == k;
                if i < last && k != first_number(chs.last()) {
                    assert(prev[i] == chs[i]);
                    assert(index_of(prev).contains_key(k));
                }
            }
        }
        assert forall|k: u32| #[trigger] index_of(chs).contains_key(k) implies exists|i: int|
            0 <= i < chs.len() && chs[i] == index_of(chs)[k] && first_number(chs[i]) == k
                && forall|j: int| i < j < chs.len() ==> first_number(#[trigger] chs[j]) != k by {
            if k == first_number(chs.last()) {
                assert(chs[last] == index_of(chs)[k]);
            } else {
                assert(index_of(prev).contains_key(k));
                assert(index_of(chs)[k] == index_of(prev)[k]);
                let i = choose|i: int| 0 <= i < prev.len() && prev[i] == index_of(prev)[k]
                    && first_number(prev[i]) == k
                    && forall|j: int| i < j < prev.len() ==> first_number(#[trigger] prev[j]) != k;
                assert(chs[i] == prev[i]);
                assert forall|j: int| i < j < chs.len() implies first_number(#[trigger] chs[j]) != k by {
                    if j < last {
                        assert(chs[j] == prev[j]);
                    }
                }
            }
        }
    }
}


/// Why a chapter could not be added.
#[derive(Clone, Copy, Debug, PartialEq, Eq, Structural)]
pub enum BookError {
    /// The chapter's path names no file: it is empty or ends in `/`.
    InvalidPath,
}

/// The line of the summary file that lists the chapter in `filename` under `name`.
pub fn summary_entry(filename: &str, name: &str) -> (r: String)
    ensures
        r@ == summary_entry_of(filename@, name@),
{
    proof {
        reveal_strlit("- [");
        reveal_strlit("](./");
        reveal_strlit(")\n");
    }
    let mut r = String::from_str("- [");
    r.append(name);
    r.append("](./");
    r.append(filename);
    r.append(")\n");
    r
}

/// Adds the summary line for the chapter in `filename` after the text already in `summary`.
pub fn append_summary_line(summary: &mut String, filename: &str, name: &str)
    ensures
        final(summary)@ == old(summary)@ + summary_entry_of(filename@, name@),
{
    let entry = summary_entry(filename, name);
    summary.append(entry.as_str());
}

/// What the tool reads from and does to a loaded book.
pub trait Handler {
    /// The directory the chapter files live in.
    spec fn source(&self) -> Seq<char>;

    /// The top-level entries in document order: each chapter, or nothing for
    /// a separator.
    spec fn entries(&self) -> Seq<Option<ChapterView>>;

    /// The chapters of the book, in document order.
    spec fn chapters(&self) -> Seq<ChapterView>;

    /// The chapters of the book, in document order.
    fn get_chapters(&self) -> (r: Vec<&Chapter>)
        ensures
            r@.len() == self.chapters().len(),
            forall|i: int| 0 <= i < r@.len() ==> (#[trigger] r@[i])@ == self.chapters()[i],
    ;

    /// The relative paths of the chapters, in document order.
    fn get_chapter_paths(&self) -> (r: Vec<String>)
        ensures
            r@.len() == self.chapters().len(),
            forall|j: int| 0 <= j < r@.len() ==> (#[trigger] r@[j])@ == self.chapters()[j].path,
    ;

    /// The names of the chapters, in document order.
    fn get_chapter_names(&self) -> (r: Vec<String>)
        ensures
            r@.len() == self.chapters().len(),
            forall|j: int| 0 <= j < r@.len() ==> (#[trigger] r@[j])@ == self.chapters()[j].name,
    ;

    /// The parent chains of the chapters, in document order.
    fn get_parents(&self) -> (r: Vec<Vec<String>>)
        ensures
            r@.len() == self.chapters().len(),
            forall|j: int| 0 <= j < r@.len() ==> (#[trigger] r@[j]).deep_view() == self.chapters()[j].parent_names,
    ;

    /// The section numbers of the chapters, in document order.
    fn get_chapter_nums(&self) -> (r: Vec<Vec<u32>>)
        requires
            forall|i: int| 0 <= i < self.chapters().len() ==> (#[trigger] self.chapters()[i]).number is Some,
        ensures
            r@.len() == self.chapters().len(),
            forall|j: int| 0 <= j < r@.len() ==> Some((#[trigger] r@[j])@) == self.chapters()[j].number,
    ;

    /// Whether every chapter carries a section number.
    fn is_numbered(&self) -> (r: bool)
        ensures
            r == all_numbered(self.chapters()),
    ;

    /// Each chapter keyed by the first segment of its section number; where two
    /// share it, the later one in document order is kept.
    fn index_chapters(&self) -> (r: HashMap<u32, Chapter>)
        requires
            all_numbered(self.chapters()),
        ensures
            r@.dom() == index_of(self.chapters()).dom(),
            forall|k: u32| #[trigger] r@.contains_key(k) ==> r@[k]@ == index_of(self.chapters())[k],
    ;

    /// Where the chapter indexed under `id` lies: the source directory joined
    /// with the chapter's relative path.
    fn get_chapter_path(&self, id: u32, map: &HashMap<u32, Chapter>) -> (r: String)
        requires
            map@.contains_key(id),
        ensures
            r@ == join(self.source(), map@[id]@.path),
    ;

    /// Where the book's summary file lies.
    fn get_sum_path(&self) -> (r: String)
        ensures
            r@ == join(self.source(), summary_file_name()),
    ;

    /// Appends, as the newest top-level entry, a chapter named `name` whose
    /// body is `content` and whose relative path is the name of the file
    /// `path` leads to, under the given parents (none when absent). A path
    /// that leads to no file name adds nothing.
    fn add_chapter(&mut self, path: &str, content: String, name: &str, parents: Option<Vec<String>>) -> (r: Result<(), BookError>)
        ensures
            r is Err <==> path_file_name(path@) is None,
            r is Err ==> r == Err::<(), BookError>(BookError::InvalidPath),
            r is Err ==> final(self).entries() == old(self).entries(),
            r is Err ==> final(self).chapters() == old(self).chapters(),
            final(self).source() == old(self).source(),
            r is Ok ==> final(self).entries() == old(self).entries().push(Some(ChapterView {
                name: name@,
                content: content@,
                number: None,
                path: path_file_name(path@).unwrap(),
                parent_names: match parents {
                    Some(p) => p.deep_view(),
                    None => Seq::empty(),
                },
            })),
            r is Ok ==> final(self).chapters() == old(self).chapters().push(ChapterView {
                name: name@,
                content: content@,
                number: None,
                path: path_file_name(path@).unwrap(),
                parent_names: match parents {
                    Some(p) => p.deep_view(),
                    None => Seq::empty(),
                },
            }),
    ;

}

impl Handler for Book {
    open spec fn source(&self) -> Seq<char> {
        self.source_dir@
    }

    open spec fn entries(&self) -> Seq<Option<ChapterView>> {
        self.items@.map_values(|item: BookItem| entry_of(item))
    }

    open spec fn chapters(&self) -> Seq<ChapterView> {
        chapters_of(self.items@)
    }

    fn get_chapters(&self) -> (r: Vec<&Chapter>)
    {
        let mut out: Vec<&Chapter> = Vec::new();
        let mut i: usize = 0;
        while i < self.items.len()
            invariant
                i <= self.items@.len(),
                out@.len() == chapters_of(self.items@.subrange(0, i as int)).len(),
                forall|j: int| 0 <= j < out@.len() ==> (#[trigger] out@[j])@ == chapters_of(
                    self.items@.subrange(0, i as int),
                )[j],
            decreases self.items.len() - i,
        {
            assert(self.items@.subrange(0, i + 1).drop_last() =~= self.items@.subrange(0, i as int));
            match &self.items[i] {
                BookItem::Chapter(c) => out.push(c),
                BookItem::Separator => {},
            }
            i = i + 1;
        }
        assert(self.items@.subrange(0, i as int) =~= self.items@);
        out
    }

    fn get_chapter_paths(&self) -> (r: Vec<String>)
    {
        let chaps = self.get_chapters();
        let mut out: Vec<String> = Vec::new();
        let mut i: usize = 0;
        while i < chaps.len()
            invariant
                i <= chaps@.len(),
                chaps@.len() == self.chapters().len(),
                forall|j: int| 0 <= j < chaps@.len() ==> (#[trigger] chaps@[j])@ == self.chapters()[j],
                out@.len() == i,
                forall|j: int| 0 <= j < i ==> (#[trigger] out@[j])@ == self.chapters()[j].path,
            decreases chaps.len() - i,
        {
            out.push(chaps[i].path.clone());
            i = i + 1;
        }
        out
    }

    fn get_chapter_names(&self) -> (r: Vec<String>)
    {
        let chaps = self.get_chapters();
        let mut out: Vec<String> = Vec::new();
        let mut i: usize = 0;
        while i < chaps.len()
            invariant
                i <= chaps@.len(),
                chaps@.len() == self.chapters().len(),
                forall|j: int| 0 <= j < chaps@.len() ==> (#[trigger] chaps@[j])@ == self.chapters()[j],
                out@.len() == i,
                forall|j: int| 0 <= j < i ==> (#[trigger] out@[j])@ == self.chapters()[j].name,
            decreases chaps.len() - i,
        {
            out.push(chaps[i].name.clone());
            i = i + 1;
        }
        out
    }

    fn get_parents(&self) -> (r: Vec<Vec<String>>)
    {
        let chaps = self.get_chapters();
        let mut out: Vec<Vec<String>> = Vec::new();
        let mut i: usize = 0;
        while i < chaps.len()
            invariant
                i <= chaps@.len(),
                chaps@.len() == self.chapters().len(),
                forall|j: int| 0 <= j < chaps@.len() ==> (#[trigger] chaps@[j])@ == self.chapters()[j],
                out@.len() == i,
                forall|j: int| 0 <= j < i ==> (#[trigger] out@[j]).deep_view() == self.chapters()[j].parent_names,
            decreases chaps.len() - i,
        {
            let p = chaps[i].snapshot().parent_names;
            out.push(p);
            i = i + 1;
        }
        out
    }

    fn get_chapter_nums(&self) -> (r: Vec<Vec<u32>>)
    {
        let chaps = self.get_chapters();
        let mut out: Vec<Vec<u32>> = Vec::new();
        let mut i: usize = 0;
        while i < chaps.len()
            invariant
                i <= chaps@.len(),
                chaps@.len() == self.chapters().len(),
                forall|j: int| 0 <= j < self.chapters().len() ==> (#[trigger] self.chapters()[j]).number is Some,
                forall|j: int| 0 <= j < chaps@.len() ==> (#[trigger] chaps@[j])@ == self.chapters()[j],
                out@.len() == i,
                forall|j: int| 0 <= j < i ==> Some((#[trigger] out@[j])@) == self.chapters()[j].number,
            decreases chaps.len() - i,
        {
            assert(self.chapters()[i as int].number is Some);
            let n = match chaps[i].snapshot().number {
                Some(n) => n,
                None => Vec::new(),
            };
            out.push(n);
            i = i + 1;
        }
        out
    }

    fn is_numbered(&self) -> (r: bool)
    {
        let chaps = self.get_chapters();
        let mut i: usize = 0;
        while i < chaps.len()
            invariant
                i <= chaps@.len(),
                chaps@.len() == self.chapters().len(),
                forall|j: int| 0 <= j < chaps@.len() ==> (#[trigger] chaps@[j])@ == self.chapters()[j],
                forall|j: int| 0 <= j < i ==> is_numbered(#[trigger] self.chapters()[j]),
            decreases chaps.len() - i,
        {
            let ok = match &chaps[i].number {
                Some(n) => n.len() > 0,
                None => false,
            };
            if !ok {
                assert(!is_numbered(self.chapters()[i as int]));
                return false;
            }
            i = i + 1;
        }
        true
    }

    fn index_chapters(&self) -> (r: HashMap<u32, Chapter>)
    {
        let chaps = self.get_chapters();
        let mut out: HashMap<u32, Chapter> = HashMap::new();
        let mut i: usize = 0;
        while i < chaps.len()
            invariant
                i <= chaps@.len(),
                chaps@.len() == self.chapters().len(),
                all_numbered(self.chapters()),
                forall|j: int| 0 <= j < chaps@.len() ==> (#[trigger] chaps@[j])@ == self.chapters()[j],
                out@.dom() == index_of(self.chapters().subrange(0, i as int)).dom(),
                forall|k: u32| #[trigger] out@.contains_key(k) ==> out@[k]@ == index_of(
                    self.chapters().subrange(0, i as int),
                )[k],
            decreases chaps.len() - i,
        {
            let ghost pre = self.chapters().subrange(0, i as int);
            let ghost next = self.chapters().subrange(0, i + 1);
            assert(next.drop_last() =~= pre);
            assert(is_numbered(self.chapters()[i as int]));
            let chap = chaps[i];
            let num: u32 = match &chap.number {
                Some(n) => n[0],
                None => 0,
            };
            out.insert(num, chap.snapshot());
            i = i + 1;
            assert(out@.dom() =~= index_of(next).dom());
        }
        assert(self.chapters().subrange(0, i as int) =~= self.chapters());
        out
    }

    fn get_chapter_path(&self, id: u32, map: &HashMap<u32, Chapter>) -> (r: String)
    {
        let chap = map.get(&id).unwrap();
        join_path(self.source_dir.as_str(), chap.path.as_str())
    }

    fn get_sum_path(&self) -> (r: String)
    {
        proof {
            reveal_strlit("SUMMARY.md");
        }
        join_path(self.source_dir.as_str(), "SUMMARY.md")
    }

    fn add_chapter(&mut self, path: &str, content: String, name: &str, parents: Option<Vec<String>>) -> (r: Result<(), BookError>)
    {
        let relative = match file_name(path) {
            Some(n) => n,
            None => return Err(BookError::InvalidPath),
        };
        let ghost expected = match &parents {
            Some(p) => p.deep_view(),
            None => Seq::empty(),
        };
        let pars = match parents {
            Some(p) => p,
            None => Vec::new(),
        };
        assert(pars.deep_view() =~= expected);
        let chapter = Chapter::new(name, content, relative, pars);
        let ghost old_items = self.items@;
        let ghost cv = chapter@;
        self.items.push(BookItem::Chapter(chapter));
        assert(self.items@.drop_last() =~= old_items);
        assert(chapters_of(self.items@) == chapters_of(old_items).push(cv));
        assert(self.items@.map_values(|item: BookItem| entry_of(item)) =~= old_items.map_values(
            |item: BookItem| entry_of(item),
        ).push(Some(cv)));
        Ok(())
    }
}

} // verus!
