use aerostage::arrangement::{Arrangement, ArrangementWindow, ArrangementWorkspace};

#[test]
fn a_directory_without_arrangements_is_refused() {
    match Arrangement::found_in("/home/me/arrangements", Vec::new()) {
        Err(message) => assert_eq!(message, "No arrangements found in directory '/home/me/arrangements'"),
        Ok(found) => panic!("expected a refusal, got {found:?}"),
    }
}

#[test]
fn found_arrangements_are_kept_in_order() {
    let one = Arrangement {
        name: "one".to_string(),
        description: None,
        workspaces: vec![ArrangementWorkspace::dummy().with_name("1")],
    };
    let two = Arrangement {
        name: "two".to_string(),
        description: Some("desk".to_string()),
        workspaces: vec![ArrangementWorkspace {
            name: "2".to_string(),
            windows: vec![ArrangementWindow::dummy().with_app("Code")],
        }],
    };

    let found = Arrangement::found_in("/a", vec![one, two]).unwrap();

    let names: Vec<&str> = found.iter().map(|a| a.name.as_str()).collect();
    assert_eq!(names, vec!["one", "two"]);
    assert_eq!(found[1].workspaces[0].windows[0].app, "Code");
}
