use tada_compose::error::ComposeError;
use tada_compose::planner::{ignored_names, stage_destination, Phase, Planner, Staging};
use tada_compose::pm::{
    install_dependencies, install_succeeded, is_known_manager, npm, pnpm, yarn,
};
use tada_compose::style::ColorConfig;

#[test]
fn run_without_addons_goes_straight_through() {
    let mut planner = Planner::new();
    assert_eq!(planner.phase(), Phase::Discover);
    planner.discovered(2);
    assert_eq!(planner.phase(), Phase::Select);
    planner.selected(Vec::new());
    assert_eq!(planner.phase(), Phase::StageDestination);
    planner.succeeded();
    assert_eq!(planner.phase(), Phase::CopyBase);
    planner.succeeded();
    assert_eq!(planner.phase(), Phase::MergeManifests);
    planner.succeeded();
    assert_eq!(planner.phase(), Phase::Persist);
    planner.succeeded();
    assert_eq!(planner.phase(), Phase::Completed);
    assert!(planner.phase().is_terminal());
}

#[test]
fn entries_are_applied_addon_by_addon_in_declared_order() {
    let mut planner = Planner::new();
    planner.discovered(1);
    planner.selected(vec![2, 0, 1, 0]);
    planner.succeeded();
    planner.succeeded();
    let mut seen: Vec<(usize, usize)> = Vec::new();
    while let Phase::ApplyAddons { addon, entry } = planner.phase() {
        seen.push((addon, entry));
        planner.succeeded();
    }
    assert_eq!(seen, vec![(0, 0), (0, 1), (2, 0)]);
    assert_eq!(planner.phase(), Phase::MergeManifests);
}

#[test]
fn addons_without_entries_are_passed_over() {
    let mut planner = Planner::new();
    planner.discovered(1);
    planner.selected(vec![0, 0, 0]);
    planner.succeeded();
    planner.succeeded();
    assert_eq!(planner.phase(), Phase::MergeManifests);
}

#[test]
fn no_templates_ends_the_run() {
    let mut planner = Planner::new();
    planner.discovered(0);
    assert_eq!(planner.phase(), Phase::Aborted(ComposeError::NoTemplatesFound));
    assert!(planner.phase().is_terminal());
}

#[test]
fn failure_aborts_with_its_reason() {
    let mut planner = Planner::new();
    planner.discovered(1);
    planner.selected(vec![3]);
    planner.succeeded();
    planner.succeeded();
    planner.succeeded();
    assert_eq!(planner.phase(), Phase::ApplyAddons { addon: 0, entry: 1 });
    planner.failed(ComposeError::SourceNotFound);
    assert_eq!(planner.phase(), Phase::Aborted(ComposeError::SourceNotFound));
}

#[test]
fn ended_run_stays_as_it_is() {
    let mut aborted = Planner::new();
    aborted.failed(ComposeError::Discovery);
    assert_eq!(aborted.phase(), Phase::Aborted(ComposeError::Discovery));
    aborted.succeeded();
    aborted.discovered(4);
    aborted.selected(vec![1]);
    aborted.failed(ComposeError::ManifestWrite);
    assert_eq!(aborted.phase(), Phase::Aborted(ComposeError::Discovery));

    let mut completed = Planner::new();
    completed.discovered(1);
    completed.selected(Vec::new());
    for _ in 0..4 {
        completed.succeeded();
    }
    assert_eq!(completed.phase(), Phase::Completed);
    completed.succeeded();
    completed.failed(ComposeError::ManifestWrite);
    assert_eq!(completed.phase(), Phase::Completed);
}

#[test]
fn reports_out_of_turn_change_nothing() {
    let mut planner = Planner::new();
    planner.succeeded();
    assert_eq!(planner.phase(), Phase::Discover);
    planner.selected(vec![1]);
    assert_eq!(planner.phase(), Phase::Discover);
    planner.discovered(1);
    planner.discovered(0);
    assert_eq!(planner.phase(), Phase::Select);
    planner.succeeded();
    assert_eq!(planner.phase(), Phase::Select);
    planner.selected(vec![1]);
    planner.selected(vec![5, 5]);
    planner.succeeded();
    planner.succeeded();
    assert_eq!(planner.phase(), Phase::ApplyAddons { addon: 0, entry: 0 });
    planner.succeeded();
    assert_eq!(planner.phase(), Phase::MergeManifests);
}

#[test]
fn late_failures_abort_too() {
    let mut planner = Planner::new();
    planner.discovered(1);
    planner.selected(Vec::new());
    planner.succeeded();
    planner.succeeded();
    planner.succeeded();
    assert_eq!(planner.phase(), Phase::Persist);
    planner.failed(ComposeError::ManifestSerialization);
    assert_eq!(planner.phase(), Phase::Aborted(ComposeError::ManifestSerialization));
}

#[test]
fn destination_is_staged_by_what_exists() {
    assert_eq!(stage_destination(false, true), Staging::CreateDestination);
    assert_eq!(stage_destination(false, false), Staging::CreateDestination);
    assert_eq!(stage_destination(true, true), Staging::EnsureParent);
    assert_eq!(stage_destination(true, false), Staging::Nothing);
}

#[test]
fn build_directories_are_ignored() {
    assert_eq!(ignored_names(), vec!["node_modules", ".turbo", "dist"]);
}

#[test]
fn install_command_runs_the_manager_in_the_project() {
    let command = install_dependencies("pnpm", "/work/app".to_string(), false);
    assert_eq!(command.program, "pnpm");
    assert_eq!(command.argument, "install");
    assert_eq!(command.working_directory, "/work/app");
    assert_eq!(install_dependencies("yarn", "p".to_string(), false).program, "yarn");
    assert_eq!(install_dependencies("npm", "p".to_string(), false).program, "npm");
}

#[test]
fn install_command_on_windows_runs_the_cmd_shims() {
    assert_eq!(install_dependencies("pnpm", "p".to_string(), true).program, "pnpm.CMD");
    assert_eq!(install_dependencies("yarn", "p".to_string(), true).program, "yarn.CMD");
    assert_eq!(install_dependencies("npm", "p".to_string(), true).program, "npm.CMD");
    assert_eq!(pnpm(true), "pnpm.CMD");
    assert_eq!(yarn(true), "yarn.CMD");
    assert_eq!(npm(true), "npm.CMD");
    assert_eq!(pnpm(false), "pnpm");
    assert_eq!(yarn(false), "yarn");
    assert_eq!(npm(false), "npm");
}

#[test]
fn only_three_managers_are_known() {
    assert!(is_known_manager("pnpm"));
    assert!(is_known_manager("yarn"));
    assert!(is_known_manager("npm"));
    assert!(!is_known_manager("bun"));
    assert!(!is_known_manager(""));
    assert!(!is_known_manager("NPM"));
}

#[test]
fn installation_succeeds_on_exit_code_zero_only() {
    assert!(install_succeeded(Some(0)));
    assert!(!install_succeeded(Some(1)));
    assert!(!install_succeeded(Some(-1)));
    assert!(!install_succeeded(None));
}

#[test]
fn color_is_stripped_off_terminals() {
    let piped = ColorConfig::infer(false);
    assert!(piped.should_strip_ansi);
    assert!(!piped.apply());
    let terminal = ColorConfig::infer(true);
    assert!(!terminal.should_strip_ansi);
    assert!(terminal.apply());
}
