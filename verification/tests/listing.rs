use aerostage::stage::commands::{StageListCommandHandler, StageListEntry};
use aerostage::stage::repository::StageFile;
use aerostage::stage::Stage;

fn stage_file(path: &str, name: Option<&str>) -> StageFile {
    StageFile {
        path: path.to_string(),
        stage: Stage {
            name: name.map(str::to_string),
            description: None,
            workspaces: Vec::new(),
            default_workspace: None,
        },
    }
}

#[test]
fn listing_shows_stage_name_file_name_and_path() {
    let files = vec![stage_file("/s/work.toml", Some("work")), stage_file("/s/x.toml", None)];

    let entries = StageListCommandHandler::entries(&files);

    assert_eq!(entries.len(), 2);
    assert_eq!(entries[0].stage_name.as_deref(), Some("work"));
    assert_eq!(entries[0].file_name.as_deref(), Some("work.toml"));
    assert_eq!(entries[0].file_path, "/s/work.toml");
    assert_eq!(entries[1].stage_name, None);
    assert_eq!(entries[1].file_name.as_deref(), Some("x.toml"));
}

#[test]
fn listing_table_aligns_columns_and_blanks_missing_names() {
    let files = vec![stage_file("/s/work.toml", Some("work")), stage_file("/s/x.toml", None)];
    let entries = StageListCommandHandler::entries(&files);

    let table = StageListCommandHandler::table(&entries).unwrap();

    assert_eq!(
        table,
        "| work | work.toml | /s/work.toml |\n|      | x.toml    | /s/x.toml    |\n"
    );
}

#[test]
fn empty_listing_prints_no_table() {
    let entries: Vec<StageListEntry> = Vec::new();
    assert_eq!(StageListCommandHandler::table(&entries), None);
    assert!(StageListCommandHandler::entries(&[]).is_empty());
}
