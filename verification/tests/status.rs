use mcscan::{
    Description, PlayerSample, RawPlayers, RawStatusResponse, SampleEntry, ScanTarget,
    ServerStatus,
};
use uuid::Uuid;

const NOTCH: &str = "069a79f4-44e9-4726-a5be-fca90e38aaf5";
const NOTCH_VALUE: u128 = 0x069a79f444e94726a5befca90e38aaf5;

fn entry(name: &str, id: &str) -> SampleEntry {
    SampleEntry { name: name.to_string(), id: id.to_string() }
}

fn response(description: Description, sample: Option<Vec<SampleEntry>>) -> RawStatusResponse {
    RawStatusResponse {
        version_name: "1.20.4".to_string(),
        description,
        players: RawPlayers { max: 20, sample },
    }
}

#[test]
fn scan_target_new_keeps_both_fields() {
    let target = ScanTarget::new("10.0.0.1".to_string(), "1700000000".to_string());
    assert_eq!(target.address, "10.0.0.1");
    assert_eq!(target.discovered_at, "1700000000");
}

#[test]
fn player_new_keeps_name_and_id() {
    let player = PlayerSample::new("Notch".to_string(), NOTCH_VALUE);
    assert_eq!(player.username, "Notch");
    assert_eq!(player.id, NOTCH_VALUE);
}

#[test]
fn from_entry_reads_a_hyphenated_uuid() {
    let player = PlayerSample::from_entry(&entry("Notch", NOTCH)).unwrap();
    assert_eq!(player.username, "Notch");
    assert_eq!(player.id, NOTCH_VALUE);
    assert_eq!(Uuid::from_u128(player.id), Uuid::parse_str(NOTCH).unwrap());
}

#[test]
fn from_entry_reads_every_form_the_parser_takes() {
    let forms = [
        "069a79f444e94726a5befca90e38aaf5",
        "069A79F4-44E9-4726-A5BE-FCA90E38AAF5",
        "urn:uuid:069a79f4-44e9-4726-a5be-fca90e38aaf5",
        "{069a79f4-44e9-4726-a5be-fca90e38aaf5}",
    ];
    for form in forms {
        let player = PlayerSample::from_entry(&entry("Notch", form)).unwrap();
        assert_eq!(player.id, NOTCH_VALUE);
    }
}

#[test]
fn from_entry_tells_identifiers_apart() {
    let first = PlayerSample::from_entry(&entry("a", "00000000-0000-0000-0000-000000000001"));
    let second = PlayerSample::from_entry(&entry("b", "00000000-0000-0000-0000-000000000100"));
    assert_eq!(first.unwrap().id, 1);
    assert_eq!(second.unwrap().id, 256);
}

#[test]
fn from_entry_drops_what_is_no_uuid() {
    let rejected = [
        "",
        "not-a-uuid",
        "069a79f4-44e9-4726-a5be-fca90e38aaf",
        "069a79f4-44e9-4726-a5be-fca90e38aaf5a",
        "069a79f4_44e9_4726_a5be_fca90e38aaf5",
        "g69a79f4-44e9-4726-a5be-fca90e38aaf5",
        "Notch",
    ];
    for id in rejected {
        assert_eq!(PlayerSample::from_entry(&entry("x", id)), None);
    }
}

#[test]
fn from_parsed_follows_the_parse_result() {
    let notch = entry("Notch", "ignored");
    assert_eq!(
        PlayerSample::from_parsed(&notch, Some(42)),
        Some(PlayerSample { username: "Notch".to_string(), id: 42 })
    );
    assert_eq!(PlayerSample::from_parsed(&notch, None), None);
    assert_eq!(PlayerSample::from_parsed(&notch, Some(0)).unwrap().id, 0);
    assert_eq!(PlayerSample::from_parsed(&notch, Some(u128::MAX)).unwrap().id, u128::MAX);
}

#[test]
fn sample_of_one_valid_and_one_invalid_entry_keeps_the_valid_one() {
    let players = PlayerSample::from_server_players(RawPlayers {
        max: 20,
        sample: Some(vec![entry("Notch", NOTCH), entry("Ghost", "no uuid here")]),
    });
    assert_eq!(players, vec![PlayerSample { username: "Notch".to_string(), id: NOTCH_VALUE }]);

    let players = PlayerSample::from_server_players(RawPlayers {
        max: 20,
        sample: Some(vec![entry("Ghost", "no uuid here"), entry("Notch", NOTCH)]),
    });
    assert_eq!(players, vec![PlayerSample { username: "Notch".to_string(), id: NOTCH_VALUE }]);
}

#[test]
fn sample_keeps_the_order_of_its_valid_entries() {
    let players = PlayerSample::from_server_players(RawPlayers {
        max: 5,
        sample: Some(vec![
            entry("one", "00000000-0000-0000-0000-000000000001"),
            entry("bad", "zz"),
            entry("two", "00000000-0000-0000-0000-000000000002"),
            entry("worse", ""),
            entry("three", "00000000000000000000000000000003"),
        ]),
    });
    let names: Vec<&str> = players.iter().map(|player| player.username.as_str()).collect();
    let ids: Vec<u128> = players.iter().map(|player| player.id).collect();
    assert_eq!(names, vec!["one", "two", "three"]);
    assert_eq!(ids, vec![1, 2, 3]);
}

#[test]
fn sample_may_hold_one_player_twice() {
    let players = PlayerSample::from_server_players(RawPlayers {
        max: 5,
        sample: Some(vec![entry("Notch", NOTCH), entry("Notch", NOTCH)]),
    });
    assert_eq!(players.len(), 2);
    assert_eq!(players[0], players[1]);
}

#[test]
fn missing_sample_gives_no_players() {
    let players = PlayerSample::from_server_players(RawPlayers { max: 20, sample: None });
    assert!(players.is_empty());
}

#[test]
fn empty_sample_gives_no_players() {
    let players = PlayerSample::from_server_players(RawPlayers { max: 20, sample: Some(vec![]) });
    assert!(players.is_empty());
}

#[test]
fn sample_of_invalid_entries_only_gives_no_players() {
    let players = PlayerSample::from_server_players(RawPlayers {
        max: 20,
        sample: Some(vec![entry("a", "x"), entry("b", "y")]),
    });
    assert!(players.is_empty());
}

#[test]
fn description_text_is_the_motd_in_both_shapes() {
    assert_eq!(
        Description::Plain("A Minecraft Server".to_string()).into_motd(),
        "A Minecraft Server"
    );
    assert_eq!(
        Description::Object { text: "A Minecraft Server".to_string() }.into_motd(),
        "A Minecraft Server"
    );
    assert_eq!(Description::Plain(String::new()).into_motd(), "");
}

#[test]
fn plain_and_object_descriptions_give_the_same_motd() {
    let plain = ServerStatus::from_status(
        response(Description::Plain("Welcome!".to_string()), None),
        "10.0.0.1".to_string(),
    );
    let object = ServerStatus::from_status(
        response(Description::Object { text: "Welcome!".to_string() }, None),
        "10.0.0.1".to_string(),
    );
    assert_eq!(plain.motd, "Welcome!");
    assert_eq!(plain.motd, object.motd);
    assert_eq!(plain, object);
}

#[test]
fn from_status_maps_every_field() {
    let status = ServerStatus::from_status(
        RawStatusResponse {
            version_name: "Paper 1.19.2".to_string(),
            description: Description::Object { text: "hello".to_string() },
            players: RawPlayers {
                max: 100,
                sample: Some(vec![entry("Notch", NOTCH), entry("Nobody", "?")]),
            },
        },
        "192.0.2.7".to_string(),
    );
    assert_eq!(
        status,
        ServerStatus {
            address: "192.0.2.7".to_string(),
            version_name: "Paper 1.19.2".to_string(),
            motd: "hello".to_string(),
            max_players: 100,
            players: vec![PlayerSample { username: "Notch".to_string(), id: NOTCH_VALUE }],
        }
    );
}

#[test]
fn from_status_copies_the_player_limit_unchanged() {
    for max in [0u32, 1, 20, u32::MAX] {
        let status = ServerStatus::from_status(
            RawStatusResponse {
                version_name: String::new(),
                description: Description::Plain(String::new()),
                players: RawPlayers { max, sample: None },
            },
            String::new(),
        );
        assert_eq!(status.max_players, max);
        assert!(status.players.is_empty());
    }
}
