use ghosty::launch::{
    build_launch_args, parse_launch_args, process_name_matches_riot_target, riot_client_executable_candidate,
    riot_client_path, running_riot_processes, validate_launch_params, LaunchError, RIOT_PROCESS_NAMES,
};
use ghosty::models::LaunchGame;

#[test]
fn riot_client_executable_candidate_keeps_direct_exe_path() {
    assert_eq!(
        riot_client_executable_candidate("C:\\Riot Games\\Riot Client\\RiotClientServices.exe"),
        "C:\\Riot Games\\Riot Client\\RiotClientServices.exe"
    );
}

#[test]
fn riot_client_executable_candidate_accepts_install_directory() {
    assert_eq!(
        riot_client_executable_candidate("C:\\Riot Games\\Riot Client"),
        "C:\\Riot Games\\Riot Client\\RiotClientServices.exe"
    );
}

#[test]
fn riot_client_executable_candidate_normalizes_forward_slashes() {
    assert_eq!(
        riot_client_executable_candidate("C:/Riot Games/Riot Client"),
        "C:\\Riot Games\\Riot Client\\RiotClientServices.exe"
    );
}

#[test]
fn parse_launch_args_splits_plain_args() {
    assert_eq!(parse_launch_args("--one --two=value").expect("args should parse"), vec!["--one", "--two=value"]);
}

#[test]
fn parse_launch_args_preserves_quoted_values() {
    assert_eq!(
        parse_launch_args("--install-directory \"C:\\Riot Games\\League of Legends\"").expect("args should parse"),
        vec!["--install-directory", "C:\\Riot Games\\League of Legends"]
    );
}

#[test]
fn parse_launch_args_handles_single_quotes() {
    assert_eq!(parse_launch_args("--flag 'two words'").expect("args should parse"), vec!["--flag", "two words"]);
}

#[test]
fn parse_launch_args_handles_escaped_quote_inside_quotes() {
    assert_eq!(
        parse_launch_args("--name \"Ghosty \\\"Test\\\"\"").expect("args should parse"),
        vec!["--name", "Ghosty \"Test\""]
    );
}

#[test]
fn parse_launch_args_preserves_empty_quoted_value() {
    assert_eq!(parse_launch_args("--flag \"\" --next").expect("args should parse"), vec!["--flag", "", "--next"]);
}

#[test]
fn parse_launch_args_ignores_plain_whitespace() {
    assert_eq!(parse_launch_args("  \t  ").expect("args should parse"), Vec::<String>::new());
}

#[test]
fn parse_launch_args_rejects_unclosed_quotes() {
    assert!(parse_launch_args("--flag \"unfinished").is_err());
}

#[test]
fn unclosed_quote_error_names_the_quote() {
    assert_eq!(parse_launch_args("--flag 'open"), Err(LaunchError::UnclosedQuote('\'')));
}

#[test]
fn validate_launch_params_rejects_bad_riot_client_params() {
    assert!(validate_launch_params(LaunchGame::Lol, "live", Some("--flag \"unfinished"), None).is_err());
}

#[test]
fn validate_launch_params_rejects_bad_game_params() {
    assert!(validate_launch_params(LaunchGame::Lol, "live", None, Some("--flag \"unfinished")).is_err());
}

#[test]
fn validate_launch_params_rejects_empty_or_spaced_patchline() {
    for patchline in ["", "   ", "live beta"] {
        assert!(validate_launch_params(LaunchGame::Lol, patchline, None, None).is_err());
    }
}

#[test]
fn validate_launch_params_allows_blank_patchline_for_riot_client_only() {
    assert!(validate_launch_params(LaunchGame::RiotClient, "", None, None).is_ok());
}

#[test]
fn build_launch_args_trims_patchline() {
    let args = build_launch_args(49232, LaunchGame::Lol, " live ", None, None).expect("launch args should build");

    assert!(args.contains(&"--launch-patchline=live".to_string()));
    assert!(!args.contains(&"--launch-patchline= live ".to_string()));
}

#[test]
fn build_launch_args_matches_expected_riot_and_game_sections() {
    assert_eq!(
        build_launch_args(49232, LaunchGame::Lol, "live", Some("--client-flag value"), Some("--game-flag \"two words\""))
            .expect("launch args should build"),
        vec![
            "--client-config-url=http://127.0.0.1:49232",
            "--launch-product=league_of_legends",
            "--launch-patchline=live",
            "--client-flag",
            "value",
            "--",
            "--game-flag",
            "two words",
        ]
    );
}

#[test]
fn riot_process_list_includes_client_ui_processes() {
    assert!(RIOT_PROCESS_NAMES.contains(&"RiotClientUx"));
    assert!(RIOT_PROCESS_NAMES.contains(&"LeagueClientUx"));
    assert!(RIOT_PROCESS_NAMES.contains(&"LeagueClientUxRender"));
}

#[test]
fn riot_process_matcher_detects_client_ui_processes() {
    assert!(process_name_matches_riot_target("RiotClientUx.exe"));
    assert!(process_name_matches_riot_target("LeagueClientUx.exe"));
    assert!(process_name_matches_riot_target("LeagueClientUxRender.exe"));
}

#[test]
fn riot_process_matcher_is_case_insensitive_and_exact() {
    assert!(process_name_matches_riot_target("riotclientservices.exe"));
    assert!(process_name_matches_riot_target("VALORANT-Win64-Shipping.exe"));
    assert!(!process_name_matches_riot_target("RiotClientServicesHelper.exe"));
    assert!(!process_name_matches_riot_target("LeagueClient"));
}

#[test]
fn running_riot_processes_keeps_only_riot_names() {
    let names = vec!["explorer.exe".to_string(), "LeagueClient.exe".to_string(), "RiotClientUx.exe".to_string()];

    assert_eq!(running_riot_processes(&names), vec!["LeagueClient", "RiotClientUx"]);
}

#[test]
fn riot_client_path_takes_the_first_existing_candidate() {
    let candidates = vec![
        ("C:\\missing\\RiotClientServices.exe".to_string(), false),
        ("D:\\Riot\\RiotClientServices.exe".to_string(), true),
        ("E:\\Riot\\RiotClientServices.exe".to_string(), true),
    ];

    assert_eq!(riot_client_path(&candidates).as_deref(), Some("D:\\Riot\\RiotClientServices.exe"));
    assert_eq!(riot_client_path(&[]), None);
}
