use oqto::a2ui::surface_id_at;
use oqto::agent::agent_color;
use oqto::auth::jwt_secret_from_draws;
use oqto::history::{get_session, list_sessions, list_sessions_grouped, SessionInfo, SessionTime};

fn info(id: &str, dir: &str, updated: i64) -> (SessionInfo, String) {
    (
        SessionInfo {
            id: id.to_string(),
            version: None,
            title: None,
            parent_id: None,
            directory: Some(dir.to_string()),
            project_id: None,
            time: SessionTime { created: 0, updated },
        },
        format!("/s/{id}.json"),
    )
}

#[test]
fn permuted_names_share_a_color() {
    assert_eq!(agent_color("main"), "#EC4899");
    assert_eq!(agent_color("research"), "#EC4899");
    assert_eq!(agent_color("ab"), agent_color("ba"));
}

#[test]
fn jwt_secret_picks_by_draw() {
    let draws: Vec<u64> = (0..64).map(|i| i * 7 + 60).collect();
    let alphabet: Vec<char> = "ABCDEFGHIJKLMNOPQRSTUVWXYZabcdefghijklmnopqrstuvwxyz0123456789".chars().collect();
    let expected: String = draws.iter().map(|d| alphabet[(d % 62) as usize]).collect();
    assert_eq!(jwt_secret_from_draws(&draws), expected);
    assert_eq!(jwt_secret_from_draws(&vec![0, 61, 62, 25, 26]), "A9AZa");
}

#[test]
fn surface_ids_use_whole_milliseconds() {
    assert_eq!(surface_id_at("btn", 1_700_000_000_123_456_789), "btn-1700000000123");
    assert_eq!(surface_id_at("x", u128::MAX), format!("x-{}", u128::MAX / 1_000_000));
}

#[test]
fn groups_partition_the_sessions() {
    let sessions = list_sessions(vec![info("a", "/w1", 3), info("b", "/w2", 2), info("c", "/w1", 1)]);
    let groups = list_sessions_grouped(&sessions);
    assert!(groups.iter().all(|g| !g.sessions.is_empty()));
    assert_eq!(groups.iter().map(|g| g.sessions.len()).sum::<usize>(), sessions.len());
}

#[test]
fn lookup_gives_the_most_recent_duplicate() {
    let sessions = list_sessions(vec![info("a", "/w", 1), info("a", "/w2", 9), info("b", "/w", 5)]);
    assert_eq!(get_session(&sessions, "a").unwrap().workspace_path, "/w2");
    assert!(get_session(&sessions, "zz").is_none());
}
