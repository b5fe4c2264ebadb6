use syntax_launcher::uri::{launch_entry, parse_launch_uri, ClientVariant, LaunchEntry, LaunchMode};

#[test]
fn parses_full_scheme_uri() {
    let it = parse_launch_uri(
        "syntax-player://1+launchmode:play+gameinfo:TICKET+placelauncherurl:URL+clientyear:2020",
    );
    assert_eq!(it.mode, LaunchMode::Play);
    assert_eq!(it.auth_ticket, "TICKET");
    assert_eq!(it.join_url, "URL");
    assert_eq!(it.client_variant, ClientVariant::VariantB);
}

#[test]
fn play_payload_round_trip() {
    let it = parse_launch_uri("launchmode:play+gameinfo:T+placelauncherurl:U");
    assert_eq!(it.mode, LaunchMode::Play);
    assert_eq!(it.auth_ticket, "T");
    assert_eq!(it.join_url, "U");
    assert_eq!(it.client_variant, ClientVariant::Default);
}

#[test]
fn value_keeps_key_delimiters() {
    let it = parse_launch_uri(
        "launchmode:play+placelauncherurl:https://www.example.com/Game/PlaceLauncher.ashx?placeId=1",
    );
    assert_eq!(it.join_url, "https://www.example.com/Game/PlaceLauncher.ashx?placeId=1");
}

#[test]
fn unknown_keys_and_bare_segments_are_ignored() {
    let it = parse_launch_uri("syntax-player://1+browsertrackerid:99+gameinfo:abc+launchtime:123");
    assert_eq!(it.mode, LaunchMode::Unknown);
    assert_eq!(it.auth_ticket, "abc");
    assert_eq!(it.join_url, "");
    assert_eq!(it.client_variant, ClientVariant::Default);
}

#[test]
fn empty_payload_gives_defaults() {
    let it = parse_launch_uri("");
    assert_eq!(it.mode, LaunchMode::Unknown);
    assert_eq!(it.auth_ticket, "");
    assert_eq!(it.join_url, "");
    assert_eq!(it.client_variant, ClientVariant::Default);
    let it = parse_launch_uri("syntax-player://");
    assert_eq!(it.mode, LaunchMode::Unknown);
}

#[test]
fn other_modes_and_years() {
    let it = parse_launch_uri("launchmode:edit+clientyear:2018");
    assert_eq!(it.mode, LaunchMode::Unknown);
    assert_eq!(it.client_variant, ClientVariant::VariantA);
    let it = parse_launch_uri("launchmode:play+clientyear:2016");
    assert_eq!(it.mode, LaunchMode::Play);
    assert_eq!(it.client_variant, ClientVariant::Default);
}

#[test]
fn later_segment_wins() {
    let it = parse_launch_uri("gameinfo:first+gameinfo:second");
    assert_eq!(it.auth_ticket, "second");
}

#[test]
fn non_ascii_values_survive() {
    let it = parse_launch_uri("gameinfo:tïcket€+placelauncherurl:ü:ß");
    assert_eq!(it.auth_ticket, "tïcket€");
    assert_eq!(it.join_url, "ü:ß");
}

#[test]
fn no_argument_opens_default_page() {
    let args: Vec<String> = Vec::new();
    assert!(matches!(launch_entry(&args), LaunchEntry::OpenDefault));
}

#[test]
fn first_argument_is_the_uri() {
    let args = vec!["launchmode:play+gameinfo:T".to_string(), "ignored".to_string()];
    match launch_entry(&args) {
        LaunchEntry::Launch(it) => {
            assert_eq!(it.mode, LaunchMode::Play);
            assert_eq!(it.auth_ticket, "T");
        }
        LaunchEntry::OpenDefault => panic!("expected a launch intent"),
    }
}
