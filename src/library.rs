use vstd::prelude::*;
use vstd::string::*;
use crate::book::{Book, ChapterView, Handler};
use crate::paths::{join, join_path, parent_dir_name, parent_name};

verus! {

/// A named collection of books.
pub struct Library {
    pub name: String,
    pub books: Vec<Member>,
}

/// One book of a library: its name, root directory, chapters and entry count.
pub struct Member {
    pub name: String,
    pub path: String,
    pub parts: Vec<Part>,
    pub count: u64,
}

/// One chapter of a member book, with the full path of its file.
pub struct Part {
    pub name: String,
    pub path: String,
}

/// Where the chapter `c` of the book rooted at `root` lies.
pub open spec fn part_path(root: Seq<char>, c: ChapterView) -> Seq<char> {
    join(join(root, "src/"@), c.path)
}

impl Member {
    /// The member for the book rooted at `root`: named after the directory
    /// that holds the root, counting every top-level entry.
    pub fn add(root: &str, book: &Book) -> (r: Member)
        requires
            book.items@.len() <= u64::MAX,
        ensures
            r.name@ == parent_name(root@),
            r.path@ == root@,
            r.count == book.items@.len(),
            r.parts@.len() == book.chapters().len(),
            forall|i: int| 0 <= i < r.parts@.len() ==> (#[trigger] r.parts@[i]).name@ == book.chapters()[i].name
                && r.parts@[i].path@ == part_path(root@, book.chapters()[i]),
    {
        let name = parent_dir_name(root);
        let count = book.items.len() as u64;
        let parts = Member::collect_parts(root, book);
        Member { name, path: String::from_str(root), parts, count }
    }

    /// The chapters of `book`, each with its file's path under `rootpath`.
    pub fn collect_parts(rootpath: &str, book: &Book) -> (r: Vec<Part>)
        ensures
            r@.len() == book.chapters().len(),
            forall|i: int| 0 <= i < r@.len() ==> (#[trigger] r@[i]).name@ == book.chapters()[i].name
                && r@[i].path@ == part_path(rootpath@, book.chapters()[i]),
    {
        proof {
            reveal_strlit("src/");
        }
        let srcpath = join_path(rootpath, "src/");
        let chaps = book.get_chapters();
        let mut res: Vec<Part> = Vec::new();
        let mut i: usize = 0;
        while i < chaps.len()
            invariant
                i <= chaps@.len(),
                chaps@.len() == book.chapters().len(),
                srcpath@ == join(rootpath@, "src/"@),
                forall|j: int| 0 <= j < chaps@.len() ==> (#[trigger] chaps@[j])@ == book.chapters()[j],
                res@.len() == i,
                forall|j: int| 0 <= j < i ==> (#[trigger] res@[j]).name@ == book.chapters()[j].name
                    && res@[j].path@ == part_path(rootpath@, book.chapters()[j]),
            decreases chaps.len() - i,
        {
            let chap = chaps[i];
            let fullpath = join_path(srcpath.as_str(), chap.path.as_str());
            res.push(Part { name: chap.name.clone(), path: fullpath });
            i = i + 1;
        }
        res
    }
}

} // verus!
