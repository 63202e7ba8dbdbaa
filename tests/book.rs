use sanctuary::book::{append_summary_line, summary_entry, Book, BookError, BookItem, Chapter, Handler};

fn chapter(name: &str, number: Option<Vec<u32>>, path: &str) -> Chapter {
    Chapter {
        name: name.to_string(),
        content: format!("# {}\n", name),
        number,
        path: path.to_string(),
        parent_names: Vec::new(),
    }
}

fn sample_book() -> Book {
    Book {
        source_dir: "/books/ideas/src".to_string(),
        items: vec![
            BookItem::Chapter(chapter("First", Some(vec![1]), "first.md")),
            BookItem::Separator,
            BookItem::Chapter(chapter("Second", Some(vec![2]), "second.md")),
            BookItem::Chapter(chapter("Third", Some(vec![3, 1]), "third.md")),
        ],
    }
}

#[test]
fn index_has_one_entry_per_first_number() {
    let book = sample_book();
    let map = book.index_chapters();
    assert_eq!(map.len(), 3);
    assert_eq!(map.get(&1).unwrap().name, "First");
    assert_eq!(map.get(&2).unwrap().name, "Second");
    assert_eq!(map.get(&3).unwrap().name, "Third");
}

#[test]
fn index_keeps_last_chapter_for_duplicate_number() {
    let book = Book {
        source_dir: "src".to_string(),
        items: vec![
            BookItem::Chapter(chapter("Early", Some(vec![4]), "early.md")),
            BookItem::Chapter(chapter("Late", Some(vec![4, 2]), "late.md")),
        ],
    };
    let map = book.index_chapters();
    assert_eq!(map.len(), 1);
    assert_eq!(map.get(&4).unwrap().name, "Late");
    assert_eq!(map.get(&4).unwrap().path, "late.md");
}

#[test]
fn index_of_empty_book_is_empty() {
    let book = Book { source_dir: "src".to_string(), items: vec![BookItem::Separator] };
    assert!(book.is_numbered());
    assert!(book.index_chapters().is_empty());
}

#[test]
fn unnumbered_chapter_is_reported() {
    let mut book = sample_book();
    book.items.push(BookItem::Chapter(chapter("Draft", None, "draft.md")));
    assert!(!book.is_numbered());
    assert!(sample_book().is_numbered());
}

#[test]
fn chapter_path_joins_source_dir_and_relative_path() {
    let book = sample_book();
    let map = book.index_chapters();
    assert_eq!(book.get_chapter_path(2, &map), "/books/ideas/src/second.md");
    let slashed = Book { source_dir: "/books/ideas/src/".to_string(), items: Vec::new() };
    assert_eq!(slashed.get_chapter_path(3, &map), "/books/ideas/src/third.md");
}

#[test]
fn summary_path_is_in_source_dir() {
    assert_eq!(sample_book().get_sum_path(), "/books/ideas/src/SUMMARY.md");
}

#[test]
fn accessors_skip_separators() {
    let book = sample_book();
    assert_eq!(book.get_chapter_names(), vec!["First", "Second", "Third"]);
    assert_eq!(book.get_chapter_paths(), vec!["first.md", "second.md", "third.md"]);
    assert_eq!(book.get_chapter_nums(), vec![vec![1], vec![2], vec![3, 1]]);
    assert_eq!(book.get_parents(), vec![Vec::<String>::new(), Vec::new(), Vec::new()]);
    assert_eq!(book.get_chapters().len(), 3);
}

#[test]
fn add_chapter_keeps_content_and_takes_base_name() {
    let mut book = sample_book();
    let content = "line one\n\tline two  \n".to_string();
    let r = book.add_chapter("/home/me/repo/src/new idea.md", content.clone(), "New idea", None);
    assert_eq!(r, Ok(()));
    assert_eq!(book.items.len(), 5);
    match book.items.last().unwrap() {
        BookItem::Chapter(c) => {
            assert_eq!(c.content, content);
            assert_eq!(c.path, "new idea.md");
            assert_eq!(c.name, "New idea");
            assert_eq!(c.number, None);
            assert!(c.parent_names.is_empty());
        }
        BookItem::Separator => panic!("expected a chapter"),
    }
}

#[test]
fn add_chapter_with_parents() {
    let mut book = sample_book();
    let parents = vec!["First".to_string()];
    assert!(book.add_chapter("child.md", String::new(), "Child", Some(parents)).is_ok());
    assert_eq!(book.get_parents()[3], vec!["First".to_string()]);
    assert_eq!(book.get_chapter_paths()[3], "child.md");
}

#[test]
fn add_chapter_rejects_directory_path() {
    let mut book = sample_book();
    let r = book.add_chapter("/", String::new(), "Nothing", None);
    assert_eq!(r, Err(BookError::InvalidPath));
    assert_eq!(book.items.len(), 4);
    assert_eq!(book.add_chapter("", String::new(), "Nothing", None), Err(BookError::InvalidPath));
    assert_eq!(book.items.len(), 4);
}

#[test]
fn summary_entry_is_markdown_list_item() {
    assert_eq!(summary_entry("my-idea.md", "my-idea"), "- [my-idea](./my-idea.md)\n");
}

#[test]
fn summary_line_is_appended_after_existing_text() {
    let mut summary = "# Summary\n\n- [First](./first.md)\n".to_string();
    append_summary_line(&mut summary, "second.md", "Second");
    assert_eq!(summary, "# Summary\n\n- [First](./first.md)\n- [Second](./second.md)\n");
    assert_eq!(summary.lines().count(), 4);
}

#[test]
fn snapshot_copies_every_field() {
    let mut c = chapter("Copy", Some(vec![7, 2]), "copy.md");
    c.parent_names.push("Parent".to_string());
    let s = c.snapshot();
    assert_eq!(s.name, c.name);
    assert_eq!(s.content, c.content);
    assert_eq!(s.number, c.number);
    assert_eq!(s.path, c.path);
    assert_eq!(s.parent_names, c.parent_names);
}

#[test]
fn add_chapter_rejects_parent_reference() {
    let mut book = sample_book();
    assert_eq!(book.add_chapter("/home/me/repo/..", String::new(), "Up", None), Err(BookError::InvalidPath));
    assert_eq!(book.add_chapter("a/..", String::new(), "Up", None), Err(BookError::InvalidPath));
    assert_eq!(book.add_chapter(".", String::new(), "Here", None), Err(BookError::InvalidPath));
    assert_eq!(book.items.len(), 4);
    assert_eq!(book.get_chapter_names(), vec!["First", "Second", "Third"]);
}

#[test]
fn add_chapter_takes_name_before_trailing_dot() {
    let mut book = sample_book();
    assert_eq!(book.add_chapter("notes/x.md/.", String::new(), "X", None), Ok(()));
    assert_eq!(book.get_chapter_paths()[3], "x.md");
}

#[test]
fn add_chapter_keeps_separators_and_order() {
    let mut book = sample_book();
    assert!(book.add_chapter("src/fourth.md", "4".to_string(), "Fourth", None).is_ok());
    assert_eq!(book.items.len(), 5);
    assert!(matches!(book.items[1], BookItem::Separator));
    let names: Vec<String> = book
        .items
        .iter()
        .map(|item| match item {
            BookItem::Chapter(c) => c.name.clone(),
            BookItem::Separator => "--".to_string(),
        })
        .collect();
    assert_eq!(names, vec!["First", "--", "Second", "Third", "Fourth"]);
}

#[test]
fn chapter_nums_keep_an_empty_number() {
    let book = Book {
        source_dir: "src".to_string(),
        items: vec![
            BookItem::Chapter(chapter("Odd", Some(Vec::new()), "odd.md")),
            BookItem::Separator,
            BookItem::Chapter(chapter("Two", Some(vec![2, 1]), "two.md")),
        ],
    };
    assert_eq!(book.get_chapter_nums(), vec![Vec::<u32>::new(), vec![2, 1]]);
    assert!(!book.is_numbered());
}
