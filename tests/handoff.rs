use syntax_launcher::launch::{plan_launch, LaunchError};
use syntax_launcher::relocate::{
    bootstrapper_path, bootstrapper_url, ensure_running_from, Decision, Handoff, HandoffAction,
    HandoffEvent,
};
use syntax_launcher::resolve::{parse_version_body, Endpoint, ResolveStep, ResolvedEndpoint, VersionResolver};
use syntax_launcher::uri::parse_launch_uri;

fn path(parts: &[&str]) -> Vec<String> {
    parts.iter().map(|s| s.to_string()).collect()
}

fn resolver() -> VersionResolver {
    VersionResolver { primary: "https://primary.example".to_string(), fallback: "https://fallback.example".to_string() }
}

#[test]
fn failover_to_fallback() {
    let r = resolver();
    assert!(matches!(r.first_step(), ResolveStep::Fetch(Endpoint::Primary)));
    assert!(matches!(r.on_response(Endpoint::Primary, None), ResolveStep::Fetch(Endpoint::Fallback)));
    match r.on_response(Endpoint::Fallback, Some("42")) {
        ResolveStep::Resolved(e) => {
            assert_eq!(e.version, "42");
            assert_eq!(e.base, "https://fallback.example");
        }
        other => panic!("unexpected step {:?}", other),
    }
}

#[test]
fn malformed_primary_body_fails_over() {
    let r = resolver();
    assert!(matches!(r.on_response(Endpoint::Primary, Some("")), ResolveStep::Fetch(Endpoint::Fallback)));
    assert!(matches!(r.on_response(Endpoint::Primary, Some("<html>")), ResolveStep::Fetch(Endpoint::Fallback)));
}

#[test]
fn both_endpoints_failing_gives_up() {
    let r = resolver();
    assert!(matches!(r.on_response(Endpoint::Fallback, None), ResolveStep::GiveUp));
    assert!(matches!(r.on_response(Endpoint::Fallback, Some("a b")), ResolveStep::GiveUp));
}

#[test]
fn primary_success_keeps_primary() {
    match resolver().on_response(Endpoint::Primary, Some("version-abc123\r\n")) {
        ResolveStep::Resolved(e) => {
            assert_eq!(e.version, "version-abc123");
            assert_eq!(e.base, "https://primary.example");
        }
        other => panic!("unexpected step {:?}", other),
    }
}

#[test]
fn version_bodies() {
    assert_eq!(parse_version_body("1.2.3\n"), Some("1.2.3".to_string()));
    assert_eq!(parse_version_body(".."), None);
    assert_eq!(parse_version_body("   "), None);
    assert_eq!(parse_version_body("a/b"), None);
}

#[test]
fn endpoint_addresses() {
    let r = resolver();
    assert_eq!(r.version_url(Endpoint::Fallback), "https://fallback.example/version");
    let e = ResolvedEndpoint { base: "https://h".to_string(), version: "v9".to_string() };
    assert_eq!(e.asset_url("ssl.zip"), "https://h/v9-ssl.zip");
    assert_eq!(e.asset_url_prefix(), "https://h/v9-");
    assert_eq!(bootstrapper_url(&e), "https://h/v9-SyntaxPlayerLauncher.exe");
}

#[test]
fn running_inside_target_is_already_correct() {
    let target = path(&["/d", "Syntax", "Versions", "v9"]);
    let exe = path(&["/d", "Syntax", "Versions", "v9", "SyntaxPlayerLauncher.exe"]);
    assert_eq!(ensure_running_from(&exe, &target, false), Decision::AlreadyCorrect);
}

#[test]
fn running_elsewhere_relocates() {
    let target = path(&["/d", "Syntax", "Versions", "v9"]);
    let exe = path(&["/d", "Syntax", "Versions", "v8", "SyntaxPlayerLauncher.exe"]);
    assert_eq!(ensure_running_from(&exe, &target, false), Decision::Relocate);
    assert_eq!(ensure_running_from(&target, &target, false), Decision::Relocate);
    assert_eq!(ensure_running_from(&exe, &target, true), Decision::AlreadyCorrect);
    assert_eq!(bootstrapper_path(&target).last().unwrap(), "SyntaxPlayerLauncher.exe");
}

#[test]
fn handoff_redownloads_once() {
    let mut h = Handoff::new();
    assert_eq!(h.on_event(HandoffEvent::Checked(false)), HandoffAction::Fetch);
    assert_eq!(h.on_event(HandoffEvent::Fetched(true)), HandoffAction::Spawn);
    assert_eq!(h.on_event(HandoffEvent::Spawned(false)), HandoffAction::Refetch);
    assert_eq!(h.on_event(HandoffEvent::Fetched(true)), HandoffAction::Spawn);
    assert_eq!(h.on_event(HandoffEvent::Spawned(false)), HandoffAction::Fatal);
}

#[test]
fn handoff_present_binary_spawns_and_exits() {
    let mut h = Handoff::new();
    assert_eq!(h.on_event(HandoffEvent::Checked(true)), HandoffAction::Spawn);
    assert_eq!(h.on_event(HandoffEvent::Spawned(true)), HandoffAction::Exit);
    let mut h = Handoff::new();
    assert_eq!(h.on_event(HandoffEvent::Fetched(false)), HandoffAction::Fatal);
}

#[test]
fn launch_play_builds_arguments() {
    let intent = parse_launch_uri("launchmode:play+gameinfo:TK+placelauncherurl:https://j/x?a=1");
    let exe = path(&["/d", "v", "SyntaxPlayerBeta.exe"]);
    let inv = plan_launch(&exe, true, &intent, "https://www.example.com", None).unwrap();
    assert_eq!(inv.shim, None);
    assert_eq!(inv.executable, exe);
    assert_eq!(
        inv.args,
        path(&["--play", "-a", "https://www.example.com/Login/Negotiate.ashx", "-t", "TK", "-j", "https://j/x?a=1"])
    );
    let inv = plan_launch(&exe, true, &intent, "https://www.example.com", Some("wine")).unwrap();
    assert_eq!(inv.shim, Some("wine".to_string()));
}

#[test]
fn launch_errors() {
    let exe = path(&["/d", "v", "SyntaxPlayerBeta.exe"]);
    let play = parse_launch_uri("launchmode:play");
    let other = parse_launch_uri("launchmode:build");
    assert_eq!(plan_launch(&exe, false, &play, "h", None).unwrap_err(), LaunchError::MissingExecutable);
    assert_eq!(plan_launch(&exe, false, &other, "h", None).unwrap_err(), LaunchError::MissingExecutable);
    assert_eq!(plan_launch(&exe, true, &other, "h", None).unwrap_err(), LaunchError::UnknownMode);
}
