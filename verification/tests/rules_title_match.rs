use aerostage::aerospace::types::AerospaceWindow;
use aerostage::restore::rule::WindowResolverRule;
use aerostage::restore::rules::title_match::{TitleMatchResolverRule, TitleSimilarityResolverRule};
use aerostage::restore::types::{ResolveTarget, ResolvedWindowMatch};
use aerostage::stage::{StageWindow, StageWorkspace};

fn create_target(app_name: &str, bundle_id: &str, title: Option<&str>, workspace_name: &str) -> (StageWindow, StageWorkspace) {
    let window = StageWindow::dummy().with_app(app_name).with_bundle_id(bundle_id).with_title(title);
    let workspace = StageWorkspace::dummy().with_name(workspace_name);
    (window, workspace)
}

#[test]
fn test_title_match_single_exact_match_returns_window() {
    let (target_window, target_workspace) = create_target("Code", "com.microsoft.VSCode", Some("main.rs"), "workspace-1");
    let target = ResolveTarget { target_window: &target_window, target_workspace: &target_workspace };

    let windows = vec![AerospaceWindow::dummy()
        .with_window_id(1)
        .with_app_name("Code")
        .with_bundle_id("com.microsoft.VSCode")
        .with_window_title("main.rs")];

    let resolver = TitleMatchResolverRule {};
    let result = resolver.match_window(&windows, &target);

    assert_eq!(result, Some(ResolvedWindowMatch { target_workspace: "workspace-1".to_string(), window_id: 1 }));
}

#[test]
fn test_title_match_case_insensitive_match() {
    let (target_window, target_workspace) = create_target("Code", "com.microsoft.VSCode", Some("MAIN.RS"), "workspace-1");
    let target = ResolveTarget { target_window: &target_window, target_workspace: &target_workspace };

    let windows = vec![AerospaceWindow::dummy()
        .with_window_id(1)
        .with_app_name("Code")
        .with_bundle_id("com.microsoft.VSCode")
        .with_window_title("main.rs")];

    let resolver = TitleMatchResolverRule {};
    let result = resolver.match_window(&windows, &target);

    assert_eq!(result, Some(ResolvedWindowMatch { target_workspace: "workspace-1".to_string(), window_id: 1 }));
}

#[test]
fn test_title_match_regex_substring_match() {
    let (target_window, target_workspace) = create_target("Browser", "com.browser.app", Some("GitHub"), "workspace-1");
    let target = ResolveTarget { target_window: &target_window, target_workspace: &target_workspace };

    let windows = vec![AerospaceWindow::dummy()
        .with_window_id(42)
        .with_app_name("Browser")
        .with_bundle_id("com.browser.app")
        .with_window_title("Dashboard - GitHub - Safari")];

    let resolver = TitleMatchResolverRule {};
    let result = resolver.match_window(&windows, &target);

    assert_eq!(result, Some(ResolvedWindowMatch { target_workspace: "workspace-1".to_string(), window_id: 42 }));
}

#[test]
fn test_title_match_target_title_is_none_returns_none() {
    let (target_window, target_workspace) = create_target("Terminal", "com.apple.Terminal", None, "dev");
    let target = ResolveTarget { target_window: &target_window, target_workspace: &target_workspace };

    let windows = vec![AerospaceWindow::dummy()
        .with_app_name("Terminal")
        .with_bundle_id("com.apple.Terminal")
        .with_window_title("zsh")];

    let resolver = TitleMatchResolverRule {};
    let result = resolver.match_window(&windows, &target);

    assert_eq!(result, None);
}

#[test]
fn test_title_match_multiple_matches_returns_none() {
    let (target_window, target_workspace) = create_target("Code", "com.microsoft.VSCode", Some("index.ts"), "dev");
    let target = ResolveTarget { target_window: &target_window, target_workspace: &target_workspace };

    let windows = vec![
        AerospaceWindow::dummy()
            .with_window_id(1)
            .with_app_name("Code")
            .with_bundle_id("com.microsoft.VSCode")
            .with_window_title("index.ts"),
        AerospaceWindow::dummy()
            .with_window_id(2)
            .with_app_name("Code")
            .with_bundle_id("com.microsoft.VSCode")
            .with_window_title("index.ts"),
    ];

    let resolver = TitleMatchResolverRule {};
    let result = resolver.match_window(&windows, &target);

    assert_eq!(result, None);
}

#[test]
fn title_match_reads_the_stored_title_as_a_pattern() {
    let (target_window, target_workspace) = create_target("Mail", "com.apple.mail", Some("inbox.*unread"), "mail");
    let target = ResolveTarget { target_window: &target_window, target_workspace: &target_workspace };

    let windows = vec![
        AerospaceWindow::dummy()
            .with_window_id(1)
            .with_app_name("Mail")
            .with_bundle_id("com.apple.mail")
            .with_window_title("Drafts"),
        AerospaceWindow::dummy()
            .with_window_id(2)
            .with_app_name("Mail")
            .with_bundle_id("com.apple.mail")
            .with_window_title("Inbox - 3 Unread"),
    ];

    let result = TitleMatchResolverRule {}.match_window(&windows, &target);

    assert_eq!(result, Some(ResolvedWindowMatch { target_workspace: "mail".to_string(), window_id: 2 }));
}

#[test]
fn title_that_is_no_pattern_still_matches_by_equality() {
    let (target_window, target_workspace) = create_target("Notes", "com.apple.Notes", Some("Plan (draft"), "notes");
    let target = ResolveTarget { target_window: &target_window, target_workspace: &target_workspace };

    let windows = vec![
        AerospaceWindow::dummy()
            .with_window_id(1)
            .with_app_name("Notes")
            .with_bundle_id("com.apple.Notes")
            .with_window_title("Plan (draft) v2"),
        AerospaceWindow::dummy()
            .with_window_id(2)
            .with_app_name("Notes")
            .with_bundle_id("com.apple.Notes")
            .with_window_title("PLAN (DRAFT"),
    ];

    let result = TitleMatchResolverRule {}.match_window(&windows, &target);

    assert_eq!(result, Some(ResolvedWindowMatch { target_workspace: "notes".to_string(), window_id: 2 }));
}

#[test]
fn test_similarity_selects_highest_scoring_match() {
    let (target_window, target_workspace) = create_target("Notes", "com.apple.Notes", Some("Project Ideas 2026"), "work");
    let target = ResolveTarget { target_window: &target_window, target_workspace: &target_workspace };

    let windows = vec![
        AerospaceWindow::dummy()
            .with_window_id(10)
            .with_app_name("Notes")
            .with_bundle_id("com.apple.Notes")
            .with_window_title("Random Scratchpad"),
        AerospaceWindow::dummy()
            .with_window_id(20)
            .with_app_name("Notes")
            .with_bundle_id("com.apple.Notes")
            .with_window_title("Project Ideas 2025"),
    ];

    let resolver = TitleSimilarityResolverRule { threshold: 60 };
    let result = resolver.match_window(&windows, &target);

    assert_eq!(result, Some(ResolvedWindowMatch { target_workspace: "work".to_string(), window_id: 20 }));
}

#[test]
fn test_similarity_below_threshold_returns_none() {
    let (target_window, target_workspace) = create_target("Browser", "com.browser", Some("Rust Documentation"), "1");
    let target = ResolveTarget { target_window: &target_window, target_workspace: &target_workspace };

    let windows = vec![AerospaceWindow::dummy()
        .with_app_name("Browser")
        .with_bundle_id("com.browser")
        .with_window_title("Cooking Recipes")];

    let resolver = TitleSimilarityResolverRule { threshold: 80 };
    let result = resolver.match_window(&windows, &target);

    assert_eq!(result, None);
}

#[test]
fn test_similarity_ignores_different_app() {
    let (target_window, target_workspace) = create_target("TargetApp", "com.target.app", Some("Identical Title"), "1");
    let target = ResolveTarget { target_window: &target_window, target_workspace: &target_workspace };

    let windows = vec![AerospaceWindow::dummy()
        .with_window_id(99)
        .with_app_name("OtherApp")
        .with_bundle_id("com.other.app")
        .with_window_title("Identical Title")];

    let resolver = TitleSimilarityResolverRule { threshold: 50 };
    let result = resolver.match_window(&windows, &target);

    assert_eq!(result, None);
}

#[test]
fn test_similarity_target_title_is_none_returns_none() {
    let (target_window, target_workspace) = create_target("Notes", "com.apple.Notes", None, "1");
    let target = ResolveTarget { target_window: &target_window, target_workspace: &target_workspace };

    let windows = vec![AerospaceWindow::dummy()
        .with_app_name("Notes")
        .with_bundle_id("com.apple.Notes")
        .with_window_title("Some Title")];

    let resolver = TitleSimilarityResolverRule { threshold: 10 };
    let result = resolver.match_window(&windows, &target);

    assert_eq!(result, None);
}

#[test]
fn similarity_refuses_a_shared_best_score() {
    let (target_window, target_workspace) = create_target("Notes", "com.apple.Notes", Some("Project Ideas 2026"), "work");
    let target = ResolveTarget { target_window: &target_window, target_workspace: &target_workspace };

    let windows = vec![
        AerospaceWindow::dummy()
            .with_window_id(1)
            .with_app_name("Notes")
            .with_bundle_id("com.apple.Notes")
            .with_window_title("Project Ideas 2025"),
        AerospaceWindow::dummy()
            .with_window_id(2)
            .with_app_name("Notes")
            .with_bundle_id("com.apple.Notes")
            .with_window_title("project ideas 2024"),
    ];

    assert_eq!(TitleSimilarityResolverRule { threshold: 75 }.match_window(&windows, &target), None);
}

#[test]
fn similarity_threshold_boundary_is_inclusive() {
    // "abcd" and "abxd" are one edit apart over four characters: 0.75 similar.
    let (target_window, target_workspace) = create_target("Notes", "com.apple.Notes", Some("ABCD"), "work");
    let target = ResolveTarget { target_window: &target_window, target_workspace: &target_workspace };

    let windows = vec![AerospaceWindow::dummy()
        .with_window_id(7)
        .with_app_name("Notes")
        .with_bundle_id("com.apple.Notes")
        .with_window_title("abxd")];

    assert_eq!(
        TitleSimilarityResolverRule { threshold: 75 }.match_window(&windows, &target),
        Some(ResolvedWindowMatch { target_workspace: "work".to_string(), window_id: 7 })
    );
    assert_eq!(TitleSimilarityResolverRule { threshold: 76 }.match_window(&windows, &target), None);
}

#[test]
fn similarity_treats_two_empty_titles_as_equal() {
    let (target_window, target_workspace) = create_target("Notes", "com.apple.Notes", Some(""), "work");
    let target = ResolveTarget { target_window: &target_window, target_workspace: &target_workspace };

    let windows = vec![AerospaceWindow::dummy()
        .with_window_id(3)
        .with_app_name("Notes")
        .with_bundle_id("com.apple.Notes")
        .with_window_title("")];

    assert_eq!(
        TitleSimilarityResolverRule { threshold: 100 }.match_window(&windows, &target),
        Some(ResolvedWindowMatch { target_workspace: "work".to_string(), window_id: 3 })
    );
}

#[test]
fn similarity_binds_the_strictly_closest_of_several_similar_titles() {
    let (target_window, target_workspace) = create_target("Notes", "com.apple.Notes", Some("Project Ideas 2026"), "work");
    let target = ResolveTarget { target_window: &target_window, target_workspace: &target_workspace };

    let windows = vec![
        AerospaceWindow::dummy()
            .with_window_id(1)
            .with_app_name("Notes")
            .with_bundle_id("com.apple.Notes")
            .with_window_title("Project Idea 2025"),
        AerospaceWindow::dummy()
            .with_window_id(2)
            .with_app_name("Notes")
            .with_bundle_id("com.apple.Notes")
            .with_window_title("Project Ideas 2025"),
        AerospaceWindow::dummy()
            .with_window_id(3)
            .with_app_name("Notes")
            .with_bundle_id("com.apple.Notes")
            .with_window_title("Project Idea 2024"),
    ];

    assert_eq!(
        TitleSimilarityResolverRule { threshold: 75 }.match_window(&windows, &target),
        Some(ResolvedWindowMatch { target_workspace: "work".to_string(), window_id: 2 })
    );
}
