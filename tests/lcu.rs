use companion::lcu::{
    debug_info, is_host_only_name, parse_lockfile_contents, parse_process_commandline,
    read_from_process, read_lockfile, Candidate, Discovery, LockfileData, ParseError,
};

fn candidate(path: &str, contents: Option<&str>) -> Candidate {
    Candidate {
        path: path.to_string(),
        exists: contents.is_some(),
        contents: contents.map(|c| c.to_string()),
    }
}

#[test]
fn lockfile_five_fields_gives_port_and_password() {
    let d = parse_lockfile_contents("LeagueClient:1234:54321:s3cr3t:https").unwrap();
    assert_eq!(d.port, 54321);
    assert_eq!(d.password, "s3cr3t");
}

#[test]
fn lockfile_extra_fields_and_surrounding_whitespace_are_ignored() {
    let d = parse_lockfile_contents("  LeagueClient:99:2999:pw:https:extra:more\r\n").unwrap();
    assert_eq!(d.port, 2999);
    assert_eq!(d.password, "pw");
}

#[test]
fn lockfile_with_fewer_than_five_fields_is_rejected() {
    assert_eq!(parse_lockfile_contents("LeagueClient:1:2:3").unwrap_err(), ParseError::TooFewFields);
    assert_eq!(parse_lockfile_contents("").unwrap_err(), ParseError::TooFewFields);
    assert_eq!(parse_lockfile_contents("a:b:c:d").unwrap_err(), ParseError::TooFewFields);
    assert_eq!(parse_lockfile_contents("::::").unwrap_err(), ParseError::InvalidPort);
}

#[test]
fn lockfile_port_must_fit_sixteen_bits() {
    assert_eq!(parse_lockfile_contents("LeagueClient:1:65536:pw:https").unwrap_err(), ParseError::InvalidPort);
    assert_eq!(parse_lockfile_contents("LeagueClient:1:-1:pw:https").unwrap_err(), ParseError::InvalidPort);
    assert_eq!(parse_lockfile_contents("LeagueClient:1:80a:pw:https").unwrap_err(), ParseError::InvalidPort);
    assert_eq!(parse_lockfile_contents("LeagueClient:1::pw:https").unwrap_err(), ParseError::InvalidPort);
    assert_eq!(parse_lockfile_contents("LeagueClient:1:65535:pw:https").unwrap().port, 65535);
    assert_eq!(parse_lockfile_contents("LeagueClient:1:+080:pw:https").unwrap().port, 80);
}

#[test]
fn host_process_names_are_rejected_by_substring_rule() {
    assert_eq!(
        parse_lockfile_contents("RiotClientServices:1:2999:pw:https").unwrap_err(),
        ParseError::HostClient
    );
    assert!(parse_lockfile_contents("LeagueClientUx:1:2999:pw:https").is_ok());
    assert!(parse_lockfile_contents("RiotLeagueClient:1:2999:pw:https").is_ok());
    assert!(is_host_only_name("riotclientservices"));
    assert!(!is_host_only_name("riotleagueclient"));
    assert!(!is_host_only_name("leagueclientux"));
    assert!(!is_host_only_name("RIOT"));
}

#[test]
fn parse_error_messages() {
    assert_eq!(ParseError::TooFewFields.message(), "Invalid lockfile format");
    assert_eq!(ParseError::HostClient.message(), "Riot Client lockfile (not League Client)");
    assert_eq!(ParseError::InvalidPort.message(), "Invalid port in lockfile");
}

#[test]
fn commandline_flags_give_port_and_token() {
    let d = parse_process_commandline(
        "\"C:/Riot Games/LeagueClientUx.exe\" --riotclient-app-port=1 --app-port=51234 --remoting-auth-token=abc_DEF-1 --other",
    )
    .unwrap();
    assert_eq!(d.port, 51234);
    assert_eq!(d.password, "abc_DEF-1");
}

#[test]
fn commandline_needs_both_flags_and_a_valid_first_port() {
    assert!(parse_process_commandline("x --app-port=51234").is_none());
    assert!(parse_process_commandline("x --remoting-auth-token=t").is_none());
    assert!(parse_process_commandline("x --app-port=abc --app-port=1 --remoting-auth-token=t").is_none());
    let d = parse_process_commandline("--remoting-auth-token= --app-port=7").unwrap();
    assert_eq!(d.port, 7);
    assert_eq!(d.password, "");
}

#[test]
fn process_listing_first_matching_line_wins() {
    let listing = "CommandLine\r\nfoo.exe --app-port=1 --remoting-auth-token=a\r\nbar.exe --app-port=2 --remoting-auth-token=b\r\n";
    let d = read_from_process(listing, true).unwrap();
    assert_eq!(d.port, 1);
    assert_eq!(d.password, "a");
    let header = "x --app-port=3 --remoting-auth-token=c\nnothing here\n";
    assert_eq!(read_from_process(header, false).unwrap().port, 3);
    assert!(read_from_process(header, true).is_none());
    assert!(read_from_process("", true).is_none());
}

#[test]
fn discovery_returns_secondary_when_primary_fails() {
    let cands = vec![
        candidate("/a/lockfile", Some("broken")),
        candidate("/b/lockfile", Some("LeagueClient:1:4242:pw:https")),
    ];
    match read_lockfile(&cands, None) {
        Discovery::Found(d) => {
            assert_eq!(d.port, 4242);
            assert_eq!(d.password, "pw");
        }
        other => panic!("unexpected {:?}", other),
    }
}

#[test]
fn discovery_falls_back_to_processes_then_reports_paths() {
    let cands = vec![candidate("/a/lockfile", None), candidate("/b/lockfile", Some("RiotClient:1:2:3:4"))];
    assert!(matches!(read_lockfile(&cands, None), Discovery::InspectProcesses));
    let found = LockfileData { port: 9, password: "t".to_string() };
    match read_lockfile(&cands, Some(Some(found))) {
        Discovery::Found(d) => assert_eq!(d.port, 9),
        other => panic!("unexpected {:?}", other),
    }
    match read_lockfile(&cands, Some(None)) {
        Discovery::NotFound(m) => assert_eq!(
            m,
            "League Client not found. Ensure League of Legends is open (home screen). Tried: /a/lockfile, /b/lockfile"
        ),
        other => panic!("unexpected {:?}", other),
    }
}

#[test]
fn debug_report_lists_every_candidate() {
    let cands = vec![
        candidate("/a", None),
        candidate("/b", Some(" LeagueClient:1:2999:pw:https\n")),
        candidate("/c", Some("Riot Client:1:2:3:4")),
        Candidate { path: "/d".to_string(), exists: true, contents: None },
    ];
    let report = debug_info(&cands, &Some(None)).unwrap();
    assert_eq!(
        report,
        "/a: absent\n/b: exists process=LeagueClient port=2999 (League Client)\n/c: exists process=Riot Client parse_err=Riot Client lockfile (not League Client)\n/d: exists\nProcess LeagueClientUx.exe / LeagueClient.exe: not found"
    );
    let found = Some(Some(LockfileData { port: 77, password: "x".to_string() }));
    assert_eq!(debug_info(&vec![], &found).unwrap(), "Process LeagueClient/Ux: port=77 (use this)");
    assert_eq!(debug_info(&vec![], &None).unwrap(), "");
}
