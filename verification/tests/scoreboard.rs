use std::path::PathBuf;
use taurus_bridge::nbt::Nbt;
use taurus_bridge::scoreboard::{
    contains_text, drop_repeats, is_stale, CachedScoreboard, Scoreboard, ScoreboardNames,
};
use taurus_bridge::scorefile::{
    collect_scores, objective_names, rank, record_score, tally, total_of, ScoreboardError,
};

fn text(s: &str) -> Nbt {
    Nbt::Text(s.to_string())
}

fn compound(fields: Vec<(&str, Nbt)>) -> Nbt {
    Nbt::Compound(fields.into_iter().map(|(k, v)| (k.to_string(), v)).collect())
}

fn score(objective: &str, player: &str, points: i32) -> Nbt {
    compound(vec![
        ("Name", text(player)),
        ("Objective", text(objective)),
        ("Score", Nbt::Int(points)),
    ])
}

fn objective(name: &str) -> Nbt {
    compound(vec![("Name", text(name)), ("DisplayName", text(&name.to_uppercase()))])
}

fn file() -> Nbt {
    compound(vec![(
        "data",
        compound(vec![
            (
                "Objectives",
                Nbt::List(vec![objective("kills"), Nbt::Int(3), objective("deaths"), compound(vec![])]),
            ),
            (
                "PlayerScores",
                Nbt::List(vec![
                    score("kills", "Alex", 5),
                    score("deaths", "Alex", 50),
                    score("kills", "Steve", 12),
                    score("kills", "Total", 999),
                    score("kills", "Bob", 5),
                    compound(vec![("Name", text("Eve")), ("Objective", text("kills"))]),
                    compound(vec![
                        ("Name", text("Long")),
                        ("Objective", text("kills")),
                        ("Score", Nbt::Long(7)),
                    ]),
                    Nbt::Other,
                    score("kills", "Zed", -3),
                    score("kills", "Ann", 12),
                ]),
            ),
        ]),
    )])
}

fn pairs(list: &[(&str, i32)]) -> Vec<(String, i32)> {
    list.iter().map(|(p, s)| (p.to_string(), *s)).collect()
}

#[test]
fn field_is_the_first_entry_of_its_name() {
    let c = compound(vec![("a", Nbt::Int(1)), ("b", Nbt::Int(2)), ("a", Nbt::Int(3))]);
    assert_eq!(c.get("a"), Some(&Nbt::Int(1)));
    assert_eq!(c.get("b"), Some(&Nbt::Int(2)));
    assert_eq!(c.get("c"), None);
    assert_eq!(Nbt::List(vec![]).get("a"), None);
    assert_eq!(text("a").get("a"), None);
}

#[test]
fn data_older_than_a_minute_is_stale() {
    assert!(!is_stale(0));
    assert!(!is_stale(60));
    assert!(is_stale(61));
    assert!(is_stale(u64::MAX));
}

#[test]
fn fresh_names_and_scoreboards_are_not_stale() {
    let mut names = ScoreboardNames::new();
    assert!(names.names.is_empty());
    assert!(!names.should_update());
    names.update(vec!["kills".to_string()]);
    assert_eq!(names.names, vec!["kills".to_string()]);
    assert!(!names.should_update());
    let mut board = Scoreboard::new("kills".to_string());
    assert_eq!(board.name, "kills");
    assert!(board.scores.is_empty());
    assert_eq!(board.total, 0);
    assert!(!board.should_update());
    board.update(pairs(&[("Steve", 12)]), 12);
    assert_eq!(board.name, "kills");
    assert_eq!(board.scores, pairs(&[("Steve", 12)]));
    assert_eq!(board.total, 12);
    assert!(!board.should_update());
}

#[test]
fn score_record_needs_objective_player_and_points() {
    assert_eq!(record_score(&score("kills", "Alex", 5), "kills"), Some(("Alex".to_string(), 5)));
    assert_eq!(record_score(&score("kills", "Alex", 5), "deaths"), None);
    assert_eq!(record_score(&score("kills", "Total", 5), "kills"), None);
    assert_eq!(record_score(&Nbt::Int(1), "kills"), None);
    assert_eq!(
        record_score(&compound(vec![("Objective", text("kills")), ("Score", Nbt::Int(1))]), "kills"),
        None
    );
}

#[test]
fn scores_are_collected_in_file_order() {
    let f = file();
    let Some(Nbt::List(items)) = f.get("data").unwrap().get("PlayerScores") else {
        panic!("no list");
    };
    assert_eq!(
        collect_scores(items, "kills"),
        pairs(&[("Alex", 5), ("Steve", 12), ("Bob", 5), ("Zed", -3), ("Ann", 12)])
    );
    assert_eq!(collect_scores(items, "deaths"), pairs(&[("Alex", 50)]));
    assert_eq!(collect_scores(items, "none"), pairs(&[]));
}

#[test]
fn ranking_is_a_stable_sort_from_the_highest() {
    let scores = pairs(&[("Alex", 5), ("Steve", 12), ("Bob", 5), ("Zed", -3), ("Ann", 12)]);
    let mut want = scores.clone();
    want.sort_by(|a, b| b.1.cmp(&a.1));
    assert_eq!(rank(scores), want);
    assert_eq!(
        want,
        pairs(&[("Steve", 12), ("Ann", 12), ("Alex", 5), ("Bob", 5), ("Zed", -3)])
    );
    assert_eq!(rank(pairs(&[])), pairs(&[]));
    assert_eq!(
        rank(pairs(&[("a", i32::MIN), ("b", i32::MAX), ("c", 0)])),
        pairs(&[("b", i32::MAX), ("c", 0), ("a", i32::MIN)])
    );
}

#[test]
fn total_is_the_sum_of_the_points() {
    assert_eq!(total_of(&pairs(&[])), Some(0));
    assert_eq!(total_of(&pairs(&[("a", 5), ("b", -3), ("c", 12)])), Some(14));
    assert_eq!(
        total_of(&pairs(&[("a", i32::MAX), ("b", i32::MAX), ("c", i32::MAX)])),
        Some(3 * i32::MAX as i64)
    );
    assert_eq!(total_of(&pairs(&[("a", i32::MIN), ("b", i32::MIN)])), Some(2 * i32::MIN as i64));
}

#[test]
fn tally_ranks_and_sums_the_scores_of_one_objective() {
    assert_eq!(
        tally(&file(), "kills"),
        Ok((pairs(&[("Steve", 12), ("Ann", 12), ("Alex", 5), ("Bob", 5), ("Zed", -3)]), 31))
    );
    assert_eq!(tally(&file(), "deaths"), Ok((pairs(&[("Alex", 50)]), 50)));
}

#[test]
fn tally_names_what_is_missing() {
    assert_eq!(tally(&file(), "none"), Err(ScoreboardError::NoScores));
    assert_eq!(tally(&compound(vec![]), "kills"), Err(ScoreboardError::NoData));
    assert_eq!(tally(&Nbt::Int(1), "kills"), Err(ScoreboardError::NoData));
    assert_eq!(
        tally(&compound(vec![("data", Nbt::List(vec![]))]), "kills"),
        Err(ScoreboardError::NoData)
    );
    assert_eq!(
        tally(&compound(vec![("data", compound(vec![]))]), "kills"),
        Err(ScoreboardError::NoPlayerScores)
    );
    assert_eq!(
        tally(&compound(vec![("data", compound(vec![("PlayerScores", Nbt::Int(0))]))]), "kills"),
        Err(ScoreboardError::NoPlayerScores)
    );
}

#[test]
fn objective_names_are_read_in_order() {
    assert_eq!(objective_names(&file()), Ok(vec!["kills".to_string(), "deaths".to_string()]));
    assert_eq!(objective_names(&compound(vec![])), Err(ScoreboardError::NoData));
    assert_eq!(
        objective_names(&compound(vec![("data", compound(vec![]))])),
        Err(ScoreboardError::NoObjectives)
    );
}

#[test]
fn cache_loads_names_and_whitelist() {
    let mut cache = CachedScoreboard::new(PathBuf::from("/srv/smp/world"));
    assert!(cache.scoreboard_names.names.is_empty());
    assert!(cache.get_whitelist().is_empty());
    assert_eq!(cache.load_names(&file(), vec!["Alex".to_string(), "Ann".to_string()]), Ok(()));
    assert_eq!(cache.scoreboard_names.names, vec!["kills".to_string(), "deaths".to_string()]);
    assert_eq!(cache.get_whitelist(), &vec!["Alex".to_string(), "Ann".to_string()]);
    assert!(cache.is_whitelisted("Ann"));
    assert!(!cache.is_whitelisted("Steve"));
    assert_eq!(
        cache.load_names(&compound(vec![]), vec!["Eve".to_string()]),
        Err(ScoreboardError::NoData)
    );
    assert_eq!(cache.scoreboard_names.names, vec!["kills".to_string(), "deaths".to_string()]);
    assert!(!cache.is_whitelisted("Eve"));
}

#[test]
fn cache_knows_where_its_files_are() {
    let cache = CachedScoreboard::new(PathBuf::from("/srv/smp/world"));
    assert_eq!(cache.path(), PathBuf::from("/srv/smp/world/data/scoreboard.dat"));
    assert_eq!(cache.whitelist_path(), PathBuf::from("/srv/smp/whitelist.json"));
    let up = CachedScoreboard::new(PathBuf::from("srv/smp/.."));
    assert_eq!(up.whitelist_path(), PathBuf::from("srv/smp/whitelist.json"));
    let root = CachedScoreboard::new(PathBuf::from("/"));
    assert_eq!(root.whitelist_path(), PathBuf::from("/whitelist.json"));
}

#[test]
fn cache_loads_and_replaces_scoreboards() {
    let mut cache = CachedScoreboard::new(PathBuf::from("w"));
    assert!(!cache.is_loaded("kills"));
    assert!(cache.needs_refresh("kills"));
    assert!(matches!(cache.get_scoreboard("kills"), Err(ScoreboardError::NotFound)));
    assert_eq!(cache.load_scoreboard(&file(), "kills"), Ok(()));
    assert_eq!(cache.load_scoreboard(&file(), "deaths"), Ok(()));
    assert!(cache.is_loaded("kills"));
    assert!(!cache.needs_refresh("kills"));
    let board = cache.get_scoreboard("kills").unwrap();
    assert_eq!(board.name, "kills");
    assert_eq!(board.total, 31);
    assert_eq!(board.scores.len(), 5);
    assert_eq!(board.scores[0], ("Steve".to_string(), 12));

    let newer = compound(vec![(
        "data",
        compound(vec![("PlayerScores", Nbt::List(vec![score("kills", "Alex", 6)]))]),
    )]);
    assert_eq!(cache.load_scoreboard(&newer, "kills"), Ok(()));
    assert_eq!(cache.load_scoreboard(&newer, "deaths"), Err(ScoreboardError::NoScores));
    let board = cache.get_scoreboard("kills").unwrap();
    assert_eq!(board.scores, pairs(&[("Alex", 6)]));
    assert_eq!(board.total, 6);
    let deaths = cache.get_scoreboard("deaths").unwrap();
    assert_eq!(deaths.scores, pairs(&[("Alex", 50)]));
    assert_eq!(deaths.total, 50);
}

#[test]
fn list_membership_goes_by_whole_names() {
    let list = vec!["Alex".to_string(), "Ann".to_string()];
    assert!(contains_text(&list, "Alex"));
    assert!(!contains_text(&list, "Al"));
    assert!(!contains_text(&list, "alex"));
    assert!(!contains_text(&vec![], ""));
}

#[test]
fn errors_say_what_is_wrong() {
    assert_eq!(ScoreboardError::NoData.message("kills"), "No data found in scoreboard");
    assert_eq!(ScoreboardError::NoObjectives.message("kills"), "No objectives found in scoreboard");
    assert_eq!(
        ScoreboardError::NoPlayerScores.message("kills"),
        "No player scores found in scoreboard"
    );
    assert_eq!(ScoreboardError::NoScores.message("kills"), "No scores found for objective 'kills'");
    assert_eq!(ScoreboardError::NotFound.message("kills"), "Scoreboard 'kills' not found");
    assert_eq!(
        ScoreboardError::TotalOutOfRange.message("kills"),
        "Scores out of range for objective 'kills'"
    );
}

#[test]
fn repeats_are_dropped_where_they_stand_again() {
    let list = |names: &[&str]| -> Vec<String> { names.iter().map(|n| n.to_string()).collect() };
    assert_eq!(drop_repeats(list(&["a", "b", "a", "c", "b", "a"])), list(&["a", "b", "c"]));
    assert_eq!(drop_repeats(list(&["a", "A", "a "])), list(&["a", "A", "a "]));
    assert_eq!(drop_repeats(list(&["x", "x", "x"])), list(&["x"]));
    assert_eq!(drop_repeats(list(&[])), list(&[]));
}

#[test]
fn whitelist_names_each_player_once() {
    let mut cache = CachedScoreboard::new(PathBuf::from("w"));
    let names = vec!["Ann".to_string(), "Alex".to_string(), "Ann".to_string(), "Alex".to_string()];
    assert_eq!(cache.load_names(&file(), names), Ok(()));
    assert_eq!(cache.get_whitelist(), &vec!["Ann".to_string(), "Alex".to_string()]);
    assert!(cache.is_whitelisted("Ann"));
    assert!(cache.is_whitelisted("Alex"));
}

#[test]
fn a_name_finds_one_scoreboard_however_often_it_is_loaded() {
    let mut cache = CachedScoreboard::new(PathBuf::from("w"));
    for _ in 0..3 {
        assert_eq!(cache.load_scoreboard(&file(), "kills"), Ok(()));
        assert_eq!(cache.load_scoreboard(&file(), "deaths"), Ok(()));
    }
    assert_eq!(cache.get_scoreboard("kills").unwrap().total, 31);
    assert_eq!(cache.get_scoreboard("deaths").unwrap().total, 50);
}
