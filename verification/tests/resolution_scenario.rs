use aerostage::restore::resolution_scenario::{App, Scenario};

const NOTES: App = App::Custom { name: "Notes", bundle_id: "com.apple.Notes" };
const MAIL: App = App::Custom { name: "Mail", bundle_id: "com.apple.mail" };

#[test]
fn exact_unique_title_wins_across_workspaces() -> Result<(), String> {
    Scenario::new()
        .live("inbox", App::Safari, "Inbox")
        .on("2")
        .live("other", App::Safari, "Other")
        .on("3")
        .workspace("1", |ws| ws.wants(App::Safari, "Inbox"))
        .resolve()
        .matched("inbox", "1")?
        .unresolved("other")?
        .pending_empty()?;
    Ok(())
}

#[test]
fn consuming_an_exact_title_lets_unique_identity_bind_the_rest() -> Result<(), String> {
    Scenario::new()
        .live("inbox", App::Safari, "Inbox")
        .on("8")
        .live("extra", App::Safari, "Random")
        .on("9")
        .workspace("1", |ws| ws.wants(App::Safari, "Inbox"))
        .workspace("2", |ws| ws.wants(App::Safari, "Something else"))
        .resolve()
        .matched("inbox", "1")?
        .matched("extra", "2")?
        .pending_empty()?
        .unresolved_empty()?;
    Ok(())
}

#[test]
fn exact_title_wins_when_a_similar_title_is_also_present() -> Result<(), String> {
    Scenario::new()
        .live("exact", NOTES, "Project Ideas 2026")
        .on("3")
        .live("similar", NOTES, "Project Ideas 2025")
        .on("4")
        .workspace("work", |ws| ws.wants(NOTES, "Project Ideas 2026"))
        .resolve()
        .matched("exact", "work")?
        .unresolved("similar")?
        .pending_empty()?;
    Ok(())
}

#[test]
fn similar_titles_above_threshold_do_not_bind_without_an_exact_match() -> Result<(), String> {
    Scenario::new()
        .live("a", NOTES, "Project Ideas 2025")
        .on("3")
        .live("b", NOTES, "Project Ideas 2024")
        .on("4")
        .workspace("work", |ws| ws.wants(NOTES, "Project Ideas 2026"))
        .resolve()
        .pending_title("Project Ideas 2026")?
        .unresolved("a")?
        .unresolved("b")?;
    Ok(())
}

#[test]
fn unique_app_race_goes_to_the_first_stage_workspace() -> Result<(), String> {
    Scenario::new()
        .live("safari", App::Safari, "Inbox")
        .on("9")
        .workspace("1", |ws| ws.wants_app(App::Safari))
        .workspace("2", |ws| ws.wants_app(App::Safari))
        .resolve()
        .matched("safari", "1")?
        .pending_app(App::Safari)?
        .unresolved_empty()?;
    Ok(())
}

#[test]
fn unique_app_already_on_target_workspace_binds_without_a_title() -> Result<(), String> {
    Scenario::new()
        .live("here", App::Slack, "Team")
        .on("work")
        .live("elsewhere", App::Slack, "DMs")
        .on("personal")
        .workspace("work", |ws| ws.wants_app(App::Slack))
        .resolve()
        .matched("here", "work")?
        .unresolved("elsewhere")?
        .pending_empty()?;
    Ok(())
}

#[test]
fn resolution_scenario_fallback_moves_windows_the_stage_did_not_claim() -> Result<(), String> {
    Scenario::new()
        .default_workspace("9")
        .live("inbox", App::Safari, "Inbox")
        .on("2")
        .live("team", App::Slack, "Team")
        .on("3")
        .workspace("1", |ws| ws.wants(App::Safari, "Inbox"))
        .resolve()
        .matched("inbox", "1")?
        .fallback("team", "9")?
        .pending_empty()?
        .unresolved_empty()?;
    Ok(())
}

#[test]
fn resolution_scenario_fallback_leaves_windows_that_unmatched_stage_entries_may_own() -> Result<(), String> {
    Scenario::new()
        .default_workspace("9")
        .live("tab_a", App::Safari, "Tab A")
        .on("2")
        .live("tab_b", App::Safari, "Tab B")
        .on("3")
        .live("team", App::Slack, "Team")
        .on("4")
        .workspace("1", |ws| ws.wants(App::Safari, "Missing Tab"))
        .resolve()
        .pending_title("Missing Tab")?
        .unresolved("tab_a")?
        .unresolved("tab_b")?
        .fallback("team", "9")?;
    Ok(())
}

#[test]
fn extras_stay_unresolved_when_there_is_no_default_workspace() -> Result<(), String> {
    Scenario::new()
        .live("inbox", App::Safari, "Inbox")
        .on("2")
        .live("team", App::Slack, "Team")
        .on("3")
        .live("code", App::Code, "main.rs")
        .on("4")
        .live("term", App::Terminal, "zsh")
        .on("5")
        .workspace("1", |ws| ws.wants(App::Safari, "Inbox"))
        .resolve()
        .matched("inbox", "1")?
        .unresolved("team")?
        .unresolved("code")?
        .unresolved("term")?
        .pending_empty()?;
    Ok(())
}

#[test]
fn title_only_stage_window_can_bind_any_app() -> Result<(), String> {
    Scenario::new()
        .live("mail", MAIL, "Inbox")
        .on("2")
        .live("safari", App::Safari, "Other")
        .on("3")
        .workspace("1", |ws| ws.wants_title("Inbox"))
        .resolve()
        .matched("mail", "1")?
        .unresolved("safari")?
        .pending_empty()?;
    Ok(())
}

#[test]
fn failed_check_explains_itself_with_a_dump() {
    let result = Scenario::new()
        .default_workspace("9")
        .live("inbox", App::Safari, "Inbox")
        .on("2")
        .live("team", App::Slack, "Team")
        .on("3")
        .workspace("1", |ws| ws.wants(App::Safari, "Inbox").wants_app(App::Code))
        .resolve();

    let expected_dump = [
        "live:",
        "  inbox    #1   Safari     \"Inbox\"                  now on 2",
        "  team     #2   Slack      \"Team\"                   now on 3",
        "stage:",
        "  1: Safari \"Inbox\", Code",
        "  default: 9",
        "result:",
        "  matched:  inbox -> 1",
        "  pending:  Code on 1",
        "  leftover: (none)",
        "  fallback: team -> 9",
        "",
    ]
    .join("\n");
    assert_eq!(result.dump(), expected_dump);

    let error = result.matched("team", "1").unwrap_err();
    assert_eq!(error, format!("expected `team` to match workspace `1`, got `9`\n\n{expected_dump}"));

    let error = result.unresolved("ghost").unwrap_err();
    assert!(error.starts_with("unknown live window handle `ghost`\n\n"));

    let error = result.pending_empty().unwrap_err();
    assert!(error.starts_with("expected no pending stage claims\n\n"));

    let error = result.fallback("inbox", "9").unwrap_err();
    assert!(error.starts_with("expected `inbox` to fall back to `9`, got workspace `1` (fallback=false)\n\n"));

    assert!(result.pending_app(App::Code).is_ok());
    assert!(result.pending_app(App::Safari).is_err());
}
