use std::collections::HashMap;
use vstd::prelude::*;
use vstd::string::*;
use crate::book::{
    all_numbered, index_of, summary_entry, summary_entry_of, Book, BookError, Chapter, ChapterView, Handler,
};
use crate::config::{all_present, none_present, ConfigStore};
use crate::paths::{file_name, path_file_name};
use crate::types::ConfigFile;

verus! {

broadcast use vstd::std_specs::hash::group_hash_axioms;

/// One thing a run of the tool does, in the order the run does them.
#[derive(Clone, Copy, Debug, PartialEq, Eq, Structural)]
pub enum Step {
    /// Create the directory that holds the configuration files.
    CreateConfigDir,
    /// Greet a first-time user.
    ShowBanner,
    /// Prompt for a configuration value and store it.
    Ask(ConfigFile),
    /// Create a new book at the repository path with the stored title and author.
    InitBook,
    /// Tell the user that setup is done.
    ReportSetupComplete,
    /// Load the book and index its chapters.
    MapBook,
    /// Prompt for an idea, open the editor on it and record it.
    InputIdea,
}

/// A prompt for `key` when the store lacks it, nothing otherwise.
pub open spec fn ask_if_missing(m: Map<ConfigFile, Seq<char>>, key: ConfigFile) -> Seq<Step> {
    if m.contains_key(key) {
        Seq::empty()
    } else {
        seq![Step::Ask(key)]
    }
}

/// What a run does for the configuration `m`, given whether the configuration
/// directory exists.
pub open spec fn run_plan(m: Map<ConfigFile, Seq<char>>, config_dir_exists: bool) -> Seq<Step> {
    if all_present(m) {
        seq![Step::MapBook, Step::InputIdea]
    } else if none_present(m) {
        (if config_dir_exists { Seq::empty() } else { seq![Step::CreateConfigDir] }) + seq![
            Step::ShowBanner,
            Step::Ask(ConfigFile::Repo),
            Step::Ask(ConfigFile::Editor),
            Step::Ask(ConfigFile::Author),
            Step::Ask(ConfigFile::Title),
            Step::InitBook,
            Step::ReportSetupComplete,
        ]
    } else {
        ask_if_missing(m, ConfigFile::Repo) + ask_if_missing(m, ConfigFile::Editor)
            + ask_if_missing(m, ConfigFile::Author) + ask_if_missing(m, ConfigFile::Title)
            + seq![Step::ReportSetupComplete]
    }
}

/// The path of the file that holds the idea `summary` in the repository `repo`.
pub open spec fn idea_path_of(repo: Seq<char>, summary: Seq<char>) -> Seq<char> {
    repo + "/src/"@ + summary + ".md"@
}

/// What recording an idea leaves for the caller to write out.
pub struct IdeaRecord {
    /// The name of the idea's file, as listed in the summary.
    pub file_name: String,
    /// The line to append to the summary file.
    pub summary_line: String,
    /// The message to commit the idea's file with.
    pub commit_message: String,
}

/// The tool's state between steps: its configuration and the chapter index.
pub struct IdeaBook {
    pub config: ConfigStore,
    pub map: HashMap<u32, Chapter>,
}

impl IdeaBook {
    /// A session over `config` with an empty chapter index.
    pub fn new(config: ConfigStore) -> (r: IdeaBook)
        ensures
            r.config@ == config@,
            r.map@ == Map::<u32, Chapter>::empty(),
    {
        IdeaBook { config, map: HashMap::new() }
    }

    /// The steps of one run, in order. With a value missing the run sets up
    /// the configuration and stops; with all present it records an idea.
    pub fn run(&self, config_dir_exists: bool) -> (r: Vec<Step>)
        ensures
            r@ == run_plan(self.config@, config_dir_exists),
    {
        let mut steps: Vec<Step> = Vec::new();
        if !self.config.is_config_missing() {
            steps.push(Step::MapBook);
            steps.push(Step::InputIdea);
            assert(steps@ =~= run_plan(self.config@, config_dir_exists));
            return steps;
        }
        if self.config.is_first_time_run() {
            if !config_dir_exists {
                steps.push(Step::CreateConfigDir);
            }
            steps.push(Step::ShowBanner);
            steps.push(Step::Ask(ConfigFile::Repo));
            steps.push(Step::Ask(ConfigFile::Editor));
            steps.push(Step::Ask(ConfigFile::Author));
            steps.push(Step::Ask(ConfigFile::Title));
            steps.push(Step::InitBook);
        } else {
            if !self.config.contains(ConfigFile::Repo) {
                steps.push(Step::Ask(ConfigFile::Repo));
            }
            if !self.config.contains(ConfigFile::Editor) {
                steps.push(Step::Ask(ConfigFile::Editor));
            }
            if !self.config.contains(ConfigFile::Author) {
                steps.push(Step::Ask(ConfigFile::Author));
            }
            if !self.config.contains(ConfigFile::Title) {
                steps.push(Step::Ask(ConfigFile::Title));
            }
        }
        steps.push(Step::ReportSetupComplete);
        assert(steps@ =~= run_plan(self.config@, config_dir_exists));
        steps
    }

    /// Forgets the repository path.
    pub fn clear_repo(&mut self)
        ensures
            final(self).config@ == old(self).config@.remove(ConfigFile::Repo),
            final(self).map@ == old(self).map@,
    {
        if self.config.read(ConfigFile::Repo).is_ok() {
            self.config.remove(ConfigFile::Repo);
        } else {
            assert(self.config@.remove(ConfigFile::Repo) =~= self.config@);
        }
    }

    /// Forgets the editor path.
    pub fn clear_editor(&mut self)
        ensures
            final(self).config@ == old(self).config@.remove(ConfigFile::Editor),
            final(self).map@ == old(self).map@,
    {
        if self.config.read(ConfigFile::Editor).is_ok() {
            self.config.remove(ConfigFile::Editor);
        } else {
            assert(self.config@.remove(ConfigFile::Editor) =~= self.config@);
        }
    }

    /// Replaces the chapter index with that of `book`.
    pub fn mapthebook(&mut self, book: &Book)
        requires
            all_numbered(book.chapters()),
        ensures
            final(self).config@ == old(self).config@,
            final(self).map@.dom() == index_of(book.chapters()).dom(),
            forall|k: u32| #[trigger] final(self).map@.contains_key(k)
                ==> final(self).map@[k]@ == index_of(book.chapters())[k],
    {
        self.map = book.index_chapters();
    }
}

/// The editor picked from the menu: `vim` at 0, `nano` at 1, the name the
/// user typed at 2; no other index is offered.
pub fn chosen_editor(index: usize, typed: String) -> (r: Option<String>)
    ensures
        index == 0 ==> r is Some && r.unwrap()@ == "vim"@,
        index == 1 ==> r is Some && r.unwrap()@ == "nano"@,
        index == 2 ==> r is Some && r.unwrap()@ == typed@,
        index > 2 ==> r is None,
{
    proof {
        reveal_strlit("vim");
        reveal_strlit("nano");
    }
    if index == 0 {
        Some(String::from_str("vim"))
    } else if index == 1 {
        Some(String::from_str("nano"))
    } else if index == 2 {
        Some(typed)
    } else {
        None
    }
}

/// An answer to a setup prompt is taken only when it is not empty; otherwise
/// the prompt is asked again.
pub fn accepted_input(input: String) -> (r: Option<String>)
    ensures
        r is Some <==> input@.len() > 0,
        r matches Some(v) ==> v@ == input@,
{
    if input.unicode_len() == 0 {
        None
    } else {
        Some(input)
    }
}

/// The path of the file that holds the idea `summary` in the repository `repo`.
pub fn idea_chapter_path(repo: &str, summary: &str) -> (r: String)
    ensures
        r@ == idea_path_of(repo@, summary@),
{
    proof {
        reveal_strlit("/src/");
        reveal_strlit(".md");
    }
    let mut r = String::from_str(repo);
    r.append("/src/");
    r.append(summary);
    r.append(".md");
    r
}

/// Records the idea `summary`, whose text `content` the editor left at
/// `chapter_path`: the book gains one chapter as its newest top-level entry,
/// and the result holds the one summary line and the commit message that go
/// with it.
pub fn record_idea(book: &mut Book, chapter_path: &str, content: String, summary: &str) -> (r: Result<IdeaRecord, BookError>)
    ensures
        r is Err <==> path_file_name(chapter_path@) is None,
        r is Err ==> r == Err::<IdeaRecord, BookError>(BookError::InvalidPath),
        r is Err ==> final(book).entries() == old(book).entries(),
        final(book).source() == old(book).source(),
        r is Ok ==> final(book).entries() == old(book).entries().push(Some(ChapterView {
            name: summary@,
            content: content@,
            number: None,
            path: path_file_name(chapter_path@).unwrap(),
            parent_names: Seq::empty(),
        })),
        r matches Ok(rec) ==> Some(rec.file_name@) == path_file_name(chapter_path@)
            && rec.summary_line@ == summary_entry_of(rec.file_name@, summary@)
            && rec.commit_message@ == summary@,
{
    let name = match file_name(chapter_path) {
        Some(n) => n,
        None => return Err(BookError::InvalidPath),
    };
    match book.add_chapter(chapter_path, content, summary, None) {
        Ok(()) => {
            let summary_line = summary_entry(name.as_str(), summary);
            Ok(IdeaRecord { file_name: name, summary_line, commit_message: String::from_str(summary) })
        },
        Err(e) => Err(e),
    }
}

/// For a summary without `/`, the idea's file is named after the summary
/// with `.md` added, whatever the repository path: that is the chapter path
/// `record_idea` adds and the file its summary line lists.
pub proof fn lemma_idea_file_name(repo: Seq<char>, summary: Seq<char>)
    requires
        forall|i: int| 0 <= i < summary.len() ==> summary[i] != '/',
    ensures
        path_file_name(idea_path_of(repo, summary)) == Some(summary + ".md"@),
        summary_entry_of(path_file_name(idea_path_of(repo, summary)).unwrap(), summary)
            == "- ["@ + summary + "](./"@ + summary + ".md"@ + ")\n"@,
{
    reveal_strlit("/src/");
    reveal_strlit(".md");
    reveal_strlit("/src");
    let name = summary + ".md"@;
    assert(idea_path_of(repo, summary) =~= (repo + "/src"@) + seq!['/'] + name);
    assert forall|i: int| 0 <= i < name.len() implies name[i] != '/' by {
        if i >= summary.len() {
            assert(name[i] == ".md"@[i - summary.len()]);
        }
    }
    assert(name.last() == 'd');
    crate::paths::lemma_file_name_ignores_dir(repo + "/src"@, name);
    assert(summary_entry_of(name, summary) =~= "- ["@ + summary + "](./"@ + summary + ".md"@ + ")\n"@);
}

} // verus!
