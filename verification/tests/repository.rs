use aerostage::config::Config;
use aerostage::stage::repository::{
    is_stage_file, normalize_stage_filepath, StageFile, StageRepository, StageRepositoryError,
};
use aerostage::stage::Stage;

fn config(dir: &str) -> Config {
    Config { stage_directory: dir.to_string() }
}

fn stage_file(path: &str, name: &str) -> StageFile {
    StageFile {
        path: path.to_string(),
        stage: Stage {
            name: Some(name.to_string()),
            description: None,
            workspaces: Vec::new(),
            default_workspace: None,
        },
    }
}

#[test]
fn normalize_adds_toml_to_a_bare_name() {
    assert_eq!(normalize_stage_filepath("work").unwrap(), "work.toml");
    assert_eq!(normalize_stage_filepath("/stages/work").unwrap(), "/stages/work.toml");
}

#[test]
fn normalize_keeps_a_toml_file() {
    assert_eq!(normalize_stage_filepath("/stages/work.toml").unwrap(), "/stages/work.toml");
}

#[test]
fn normalize_refuses_another_extension() {
    match normalize_stage_filepath("/stages/work.json") {
        Err(StageRepositoryError::InvalidStageFilePath { path }) => assert_eq!(path, "/stages/work.json"),
        other => panic!("expected InvalidStageFilePath, got {other:?}"),
    }
}

#[test]
fn only_toml_files_are_stages() {
    assert!(is_stage_file("/stages/work.toml"));
    assert!(!is_stage_file("/stages/work.txt"));
    assert!(!is_stage_file("/stages/toml"));
    assert!(!is_stage_file("/stages/.toml"));
}

#[test]
fn stage_names_are_joined_with_the_stage_directory() {
    assert_eq!(StageRepository::stage_path(&config("/home/me/stages"), "work"), "/home/me/stages/work");
    assert_eq!(
        StageRepository::relative_stage_file(&config("/home/me/stages"), "work").unwrap(),
        "/home/me/stages/work.toml"
    );
    assert_eq!(
        StageRepository::relative_stage_file(&config("/home/me/stages"), "work.toml").unwrap(),
        "/home/me/stages/work.toml"
    );
    assert!(StageRepository::relative_stage_file(&config("/home/me/stages"), "work.yaml").is_err());
}

#[test]
fn stage_files_are_listed_by_file_name() {
    let files = vec![
        stage_file("/z/b.toml", "second"),
        stage_file("/y/c.toml", "third"),
        stage_file("/x/a.toml", "first"),
    ];

    let sorted = StageRepository::sort_by_file_name(files);

    let names: Vec<&str> = sorted.iter().map(|f| f.stage.name.as_deref().unwrap()).collect();
    assert_eq!(names, vec!["first", "second", "third"]);
    let paths: Vec<&str> = sorted.iter().map(|f| f.path.as_str()).collect();
    assert_eq!(paths, vec!["/x/a.toml", "/z/b.toml", "/y/c.toml"]);
}

#[test]
fn equal_file_names_keep_their_order() {
    let files = vec![
        stage_file("/two/work.toml", "two"),
        stage_file("/x/a.toml", "a"),
        stage_file("/one/work.toml", "one"),
    ];

    let sorted = StageRepository::sort_by_file_name(files);

    let names: Vec<&str> = sorted.iter().map(|f| f.stage.name.as_deref().unwrap()).collect();
    assert_eq!(names, vec!["a", "two", "one"]);
}

#[test]
fn sorting_no_files_gives_none() {
    assert!(StageRepository::sort_by_file_name(Vec::new()).is_empty());
}

#[test]
fn repository_errors_name_the_path() {
    let not_a_dir = StageRepositoryError::NotADirectory { path: "/tmp/stage.toml".to_string() };
    assert!(not_a_dir.message().contains("is not a directory"));
    assert_eq!(not_a_dir.message(), "'/tmp/stage.toml' is not a directory");

    let invalid = StageRepositoryError::InvalidStageFilePath { path: "a.json".to_string() };
    assert_eq!(invalid.message(), "invalid stage file path: a.json");

    let parse = StageRepositoryError::Deserialize { path: "bad.toml".to_string(), message: "expected `=`".to_string() };
    assert_eq!(parse.message(), "failed to parse stage file 'bad.toml'");
}
