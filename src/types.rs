use vstd::prelude::*;

verus! {

/// Command-line switches understood by the tool.
pub enum CliFlag {
    ClearRepo,
    ClearEditor,
    View,
    ShortView,
    BuildBook,
}

/// The four configuration values, each kept in a file of its own.
#[derive(Clone, Copy, Debug, PartialEq, Eq, Structural)]
pub enum ConfigFile {
    Repo,
    Editor,
    Author,
    Title,
}

impl CliFlag {
    /// The text of the switch on the command line.
    pub open spec fn spec_value(&self) -> Seq<char> {
        match *self {
            CliFlag::ClearRepo => "clear-repo"@,
            CliFlag::ClearEditor => "clear-editor"@,
            CliFlag::View => "view"@,
            CliFlag::ShortView => "v"@,
            CliFlag::BuildBook => "build-book"@,
        }
    }

    pub fn value(&self) -> (r: &str)
        ensures
            r@ == self.spec_value(),
    {
        match *self {
            CliFlag::ClearRepo => "clear-repo",
            CliFlag::ClearEditor => "clear-editor",
            CliFlag::View => "view",
            CliFlag::ShortView => "v",
            CliFlag::BuildBook => "build-book",
        }
    }
}

impl ConfigFile {
    /// The name of the file in the configuration directory that holds the value.
    pub open spec fn spec_value(&self) -> Seq<char> {
        match *self {
            ConfigFile::Repo => "repo_path"@,
            ConfigFile::Editor => "editor_path"@,
            ConfigFile::Author => "author_name"@,
            ConfigFile::Title => "book_title"@,
        }
    }

    pub fn value(&self) -> (r: &str)
        ensures
            r@ == self.spec_value(),
    {
        // These name files, so an underscore is preferred.
        match *self {
            ConfigFile::Repo => "repo_path",
            ConfigFile::Editor => "editor_path",
            ConfigFile::Author => "author_name",
            ConfigFile::Title => "book_title",
        }
    }
}

} // verus!
