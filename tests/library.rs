use sanctuary::book::{Book, BookItem, Chapter};
use sanctuary::library::{Library, Member};
use sanctuary::paths::{file_name, join_path, parent_dir_name, strip_trailing};

fn book() -> Book {
    Book {
        source_dir: "/work/ideas/book/src".to_string(),
        items: vec![
            BookItem::Chapter(Chapter {
                name: "Intro".to_string(),
                content: String::new(),
                number: Some(vec![1]),
                path: "intro.md".to_string(),
                parent_names: Vec::new(),
            }),
            BookItem::Separator,
            BookItem::Chapter(Chapter {
                name: "Notes".to_string(),
                content: String::new(),
                number: Some(vec![2]),
                path: "notes/a.md".to_string(),
                parent_names: Vec::new(),
            }),
        ],
    }
}

#[test]
fn member_is_named_after_parent_directory() {
    let m = Member::add("/work/ideas/book", &book());
    assert_eq!(m.name, "ideas");
    assert_eq!(m.path, "/work/ideas/book");
    assert_eq!(m.count, 3);
    assert_eq!(m.parts.len(), 2);
    assert_eq!(m.parts[0].name, "Intro");
    assert_eq!(m.parts[0].path, "/work/ideas/book/src/intro.md");
    assert_eq!(m.parts[1].path, "/work/ideas/book/src/notes/a.md");
    let lib = Library { name: "All".to_string(), books: vec![m] };
    assert_eq!(lib.books.len(), 1);
}

#[test]
fn collect_parts_skips_separators() {
    let parts = Member::collect_parts("root/", &book());
    assert_eq!(parts.len(), 2);
    assert_eq!(parts[1].name, "Notes");
    assert_eq!(parts[1].path, "root/src/notes/a.md");
}

#[test]
fn path_helpers() {
    assert_eq!(file_name("/a/b/c.md"), Some("c.md".to_string()));
    assert_eq!(file_name("c.md"), Some("c.md".to_string()));
    assert_eq!(file_name("/a/b/"), Some("b".to_string()));
    assert_eq!(file_name("x.md/."), Some("x.md".to_string()));
    assert_eq!(file_name("a/./"), Some("a".to_string()));
    assert_eq!(file_name("a/.."), None);
    assert_eq!(file_name("."), None);
    assert_eq!(file_name("/"), None);
    assert_eq!(file_name(""), None);
    assert_eq!(strip_trailing("/a/b//"), "/a/b");
    assert_eq!(strip_trailing("/a/b/./"), "/a/b");
    assert_eq!(parent_dir_name("a/b/."), "a");
    assert_eq!(parent_dir_name("a/./b"), "a");
    assert_eq!(parent_dir_name("/a/b/"), "a");
    assert_eq!(parent_dir_name("b"), "");
    assert_eq!(join_path("", "x.md"), "x.md");
    assert_eq!(join_path("dir", "x.md"), "dir/x.md");
    assert_eq!(join_path("dir/", "x.md"), "dir/x.md");
}

#[test]
fn member_name_passes_over_dot_segments() {
    assert_eq!(Member::add("/work/ideas/book/.", &book()).name, "ideas");
    assert_eq!(Member::add("/work/ideas/./book", &book()).name, "ideas");
}
