use sanctuary::config::{ConfigError, ConfigStore};
use sanctuary::types::{CliFlag, ConfigFile};

#[test]
fn read_after_write_returns_value() {
    let mut store = ConfigStore::new();
    store.write(ConfigFile::Author, "Ada".to_string());
    assert_eq!(store.read(ConfigFile::Author), Ok("Ada".to_string()));
    store.write(ConfigFile::Author, "Grace".to_string());
    assert_eq!(store.read(ConfigFile::Author), Ok("Grace".to_string()));
    assert_eq!(store.read(ConfigFile::Title), Err(ConfigError::NotFound));
}

#[test]
fn remove_makes_read_not_found() {
    let mut store = ConfigStore::new();
    store.write(ConfigFile::Repo, "/repo".to_string());
    store.remove(ConfigFile::Repo);
    assert_eq!(store.read(ConfigFile::Repo), Err(ConfigError::NotFound));
    assert!(!store.contains(ConfigFile::Repo));
}

#[test]
fn missing_and_first_run_checks() {
    let mut store = ConfigStore::new();
    assert!(store.is_config_missing());
    assert!(store.is_first_time_run());
    store.write(ConfigFile::Editor, "/usr/bin/vim".to_string());
    assert!(store.is_config_missing());
    assert!(!store.is_first_time_run());
    store.write(ConfigFile::Repo, "/repo".to_string());
    store.write(ConfigFile::Author, "Ada".to_string());
    store.write(ConfigFile::Title, "Ideas".to_string());
    assert!(!store.is_config_missing());
}

#[test]
fn config_file_names() {
    assert_eq!(ConfigFile::Repo.value(), "repo_path");
    assert_eq!(ConfigFile::Editor.value(), "editor_path");
    assert_eq!(ConfigFile::Author.value(), "author_name");
    assert_eq!(ConfigFile::Title.value(), "book_title");
}

#[test]
fn cli_flag_names() {
    assert_eq!(CliFlag::ClearRepo.value(), "clear-repo");
    assert_eq!(CliFlag::ClearEditor.value(), "clear-editor");
    assert_eq!(CliFlag::View.value(), "view");
    assert_eq!(CliFlag::ShortView.value(), "v");
    assert_eq!(CliFlag::BuildBook.value(), "build-book");
}
