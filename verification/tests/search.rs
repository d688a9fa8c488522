use dashium_core::dispatch::search_levels;
use dashium_core::model::{Catalog, Level};
use dashium_core::request::getGJLevels21;

fn lvl(id: i32) -> Level {
    Level {
        id,
        user_id: 100,
        username: "maker".to_string(),
        level_name: format!("level{}", id),
        objects: 500,
        difficulty: 3,
        demon_difficulty: 0,
        length: 2,
        coins: false,
        epic_rating: 0,
        featured: false,
        two_player: false,
        original: false,
        rated: false,
        verified_coins: false,
        downloads: 0,
        likes: 0,
        stars: 0,
        created_at: 1_000_000 + id as i64,
        rated_at: None,
    }
}

fn req(search_type: i16) -> getGJLevels21 {
    getGJLevels21 {
        accountID: 100,
        binaryVersion: 45,
        coins: false,
        completedLevels: String::new(),
        customSong: false,
        demonFilter: 0,
        diff: vec![String::new()],
        epic: false,
        featured: false,
        followed: String::new(),
        gameVersion: 22,
        gauntlet: 0,
        gjp2: String::new(),
        legendary: false,
        len: String::new(),
        local: false,
        mythic: false,
        noStar: false,
        onlyCompleted: false,
        original: false,
        page: 0,
        search: String::new(),
        search_type,
        secret: String::new(),
        song: 0,
        star: false,
        total: 0,
        twoPlayer: false,
        uncompleted: false,
    }
}

fn cat(levels: Vec<Level>) -> Catalog {
    Catalog {
        levels,
        daily: Vec::new(),
        weekly: Vec::new(),
        event: Vec::new(),
        suggested: Vec::new(),
        friendships: Vec::new(),
        lists: Vec::new(),
    }
}

const NOW: i64 = 10_000_000;

fn ids_of(out: &str) -> Vec<i32> {
    let block = out.split('#').next().unwrap();
    block
        .split('|')
        .map(|rec| rec.split(':').nth(1).unwrap().parse::<i32>().unwrap())
        .collect()
}

#[test]
fn empty_catalog_returns_sentinel_for_every_search_type() {
    for t in [0i16, 1, 2, 3, 4, 5, 7, 11, 12, 13, 21, 22, 23, 27, 99] {
        let out = search_levels(&req(t), cat(Vec::new()), NOW).unwrap();
        assert_eq!(out, "-2");
    }
}

#[test]
fn most_liked_orders_by_likes_descending() {
    let mut a = lvl(1);
    a.likes = 5;
    a.stars = 10;
    a.verified_coins = true;
    let mut b = lvl(2);
    b.likes = 10;
    let mut c = lvl(3);
    c.likes = 1;
    c.stars = 3;
    c.verified_coins = true;
    let out = search_levels(&req(2), cat(vec![a, b, c]), NOW).unwrap();
    let parts: Vec<&str> = out.split('#').collect();
    assert_eq!(parts.len(), 5);
    assert_eq!(ids_of(&out), vec![2, 1, 3]);
    assert_eq!(parts[2], "");
    assert_eq!(parts[3], "3:0:10");
    assert_eq!(parts[4], "970ed9fa043003339f011f01cb6214a5595c7646");
}

#[test]
fn single_level_record_layout() {
    let mut a = lvl(10);
    a.likes = 4;
    a.downloads = 9;
    a.stars = 2;
    a.featured = true;
    let out = search_levels(&req(2), cat(vec![a]), NOW).unwrap();
    let parts: Vec<&str> = out.split('#').collect();
    assert_eq!(
        parts[0],
        "1:10:2:level10:6:100:9:3:10:9:12:0:14:4:15:2:18:2:19:1:37:0:38:0:40:0:42:0:45:500:46:0"
    );
    assert_eq!(parts[1], "100:maker:100");
    assert_eq!(parts[2], "");
    assert_eq!(parts[3], "1:0:10");
    assert_eq!(parts[4], "92fb555553cf1734bb538d1ecd22c82815693a57");
}

#[test]
fn pagination_footer_is_count_offset_ten() {
    let mut r = req(2);
    r.page = 3;
    let out = search_levels(&r, cat(vec![lvl(1), lvl(2)]), NOW).unwrap();
    let parts: Vec<&str> = out.split('#').collect();
    assert_eq!(parts[3], "2:30:10");
}

#[test]
fn numeric_search_matches_id_exactly() {
    let mut r = req(0);
    r.search = "2".to_string();
    let out = search_levels(&r, cat(vec![lvl(1), lvl(2), lvl(3)]), NOW).unwrap();
    assert_eq!(ids_of(&out), vec![2]);

    r.search = "999".to_string();
    let out = search_levels(&r, cat(vec![lvl(1), lvl(2)]), NOW).unwrap();
    assert_eq!(out, "-2");
}

#[test]
fn text_search_matches_name_case_insensitively() {
    let mut a = lvl(1);
    a.level_name = "Aurora Borealis".to_string();
    a.likes = 1;
    let mut b = lvl(2);
    b.level_name = "plain".to_string();
    let mut r = req(0);
    r.search = "ROR".to_string();
    let out = search_levels(&r, cat(vec![a, b]), NOW).unwrap();
    assert_eq!(ids_of(&out), vec![1]);
}

#[test]
fn no_star_wins_over_star() {
    let mut a = lvl(1);
    a.rated = true;
    a.rated_at = Some(1_500_000);
    let b = lvl(2);
    let mut r = req(4);
    r.star = true;
    r.noStar = true;
    let out = search_levels(&r, cat(vec![a, b]), NOW).unwrap();
    assert_eq!(ids_of(&out), vec![2]);
}

#[test]
fn star_alone_keeps_rated_levels() {
    let mut a = lvl(1);
    a.rated = true;
    a.rated_at = Some(1_500_000);
    let b = lvl(2);
    let mut r = req(4);
    r.star = true;
    let out = search_levels(&r, cat(vec![a, b]), NOW).unwrap();
    assert_eq!(ids_of(&out), vec![1]);
}

#[test]
fn only_completed_excludes_the_set() {
    let mut r = req(4);
    r.onlyCompleted = true;
    r.completedLevels = "(1,3)".to_string();
    let out = search_levels(&r, cat(vec![lvl(1), lvl(2), lvl(3), lvl(4)]), NOW).unwrap();
    assert_eq!(ids_of(&out), vec![4, 2]);
}

#[test]
fn uncompleted_keeps_only_the_set() {
    let mut r = req(4);
    r.uncompleted = true;
    r.completedLevels = "(1,3)".to_string();
    let out = search_levels(&r, cat(vec![lvl(1), lvl(2), lvl(3), lvl(4)]), NOW).unwrap();
    assert_eq!(ids_of(&out), vec![3, 1]);
}

#[test]
fn unparsable_difficulty_set_filters_nothing() {
    let mut r = req(4);
    r.diff = vec!["x,y,z".to_string()];
    let out = search_levels(&r, cat(vec![lvl(1), lvl(2)]), NOW).unwrap();
    assert_eq!(ids_of(&out), vec![2, 1]);
}

#[test]
fn difficulty_set_constrains_difficulty() {
    let mut a = lvl(1);
    a.difficulty = 4;
    let b = lvl(2);
    let mut r = req(4);
    r.diff = vec!["4,5".to_string()];
    let out = search_levels(&r, cat(vec![a, b]), NOW).unwrap();
    assert_eq!(ids_of(&out), vec![1]);
}

#[test]
fn demon_sentinel_uses_demon_filter() {
    let mut a = lvl(1);
    a.demon_difficulty = 6;
    let b = lvl(2);
    let mut r = req(4);
    r.diff = vec!["-2".to_string()];
    r.demonFilter = 6;
    let out = search_levels(&r, cat(vec![a, b]), NOW).unwrap();
    assert_eq!(ids_of(&out), vec![1]);
}

#[test]
fn length_set_constrains_length() {
    let mut a = lvl(1);
    a.length = 4;
    let b = lvl(2);
    let mut r = req(4);
    r.len = "4".to_string();
    let out = search_levels(&r, cat(vec![a, b]), NOW).unwrap();
    assert_eq!(ids_of(&out), vec![1]);
}

#[test]
fn epic_priority_legendary_over_epic_over_mythic() {
    let mut a = lvl(1);
    a.epic_rating = 2;
    let mut b = lvl(2);
    b.epic_rating = 1;
    let mut r = req(4);
    r.legendary = true;
    r.epic = true;
    let out = search_levels(&r, cat(vec![a, b]), NOW).unwrap();
    assert_eq!(ids_of(&out), vec![1]);
}

#[test]
fn by_user_local_and_parsed() {
    let mut a = lvl(1);
    a.user_id = 100;
    let mut b = lvl(2);
    b.user_id = 7;
    let mut r = req(5);
    r.local = true;
    let out = search_levels(&r, cat(vec![clone_lvl(&a), clone_lvl(&b)]), NOW).unwrap();
    assert_eq!(ids_of(&out), vec![1]);

    let mut r2 = req(5);
    r2.search = "7".to_string();
    let out2 = search_levels(&r2, cat(vec![clone_lvl(&a), clone_lvl(&b)]), NOW).unwrap();
    assert_eq!(ids_of(&out2), vec![2]);

    let mut r3 = req(5);
    r3.search = "nonsense".to_string();
    let out3 = search_levels(&r3, cat(vec![a, b]), NOW).unwrap();
    assert_eq!(out3, "-2");
}

#[test]
fn trending_keeps_last_fourteen_days() {
    let mut a = lvl(1);
    a.created_at = NOW - 100;
    a.downloads = 5;
    let mut b = lvl(2);
    b.created_at = NOW - 2_000_000;
    b.downloads = 50;
    let out = search_levels(&req(3), cat(vec![a, b]), NOW).unwrap();
    assert_eq!(ids_of(&out), vec![1]);
}

#[test]
fn oversized_strategy_filters_by_objects() {
    let mut a = lvl(1);
    a.objects = 10_000;
    let b = lvl(2);
    let out = search_levels(&req(7), cat(vec![a, b]), NOW).unwrap();
    assert_eq!(ids_of(&out), vec![1]);
}

#[test]
fn rated_strategy_orders_by_curation_then_creation() {
    let mut a = lvl(1);
    a.rated = true;
    a.rated_at = Some(2_000);
    let mut b = lvl(2);
    b.rated = true;
    b.rated_at = Some(9_000);
    let c = lvl(3);
    let out = search_levels(&req(11), cat(vec![a, b, c]), NOW).unwrap();
    assert_eq!(ids_of(&out), vec![2, 1]);
}

#[test]
fn followed_strategy_uses_client_list() {
    let mut a = lvl(1);
    a.user_id = 7;
    let mut b = lvl(2);
    b.user_id = 8;
    let mut r = req(12);
    r.followed = "8,junk".to_string();
    let out = search_levels(&r, cat(vec![a, b]), NOW).unwrap();
    assert_eq!(ids_of(&out), vec![2]);
}

#[test]
fn friends_strategy_resolves_symmetric_relation() {
    let mut a = lvl(1);
    a.user_id = 5;
    let mut b = lvl(2);
    b.user_id = 6;
    let mut c = lvl(3);
    c.user_id = 9;
    let mut catalog = cat(vec![a, b, c]);
    catalog.friendships = vec![(100, 5), (6, 100), (7, 8)];
    let out = search_levels(&req(13), catalog, NOW).unwrap();
    assert_eq!(ids_of(&out), vec![2, 1]);
}

#[test]
fn daily_strategy_orders_by_assignment_descending() {
    let mut catalog = cat(vec![lvl(1), lvl(2), lvl(3)]);
    catalog.daily = vec![1, 3];
    let out = search_levels(&req(21), catalog, NOW).unwrap();
    assert_eq!(ids_of(&out), vec![3, 1]);
}

#[test]
fn saved_list_strategy_resolves_stored_ids() {
    let mut catalog = cat(vec![lvl(1), lvl(2), lvl(3)]);
    catalog.lists = vec![(7, "1,3".to_string())];
    let mut r = req(25);
    r.search = "7".to_string();
    let out = search_levels(&r, catalog, NOW).unwrap();
    assert_eq!(ids_of(&out), vec![1, 3]);
}

#[test]
fn missing_saved_list_is_a_hard_failure() {
    let catalog = cat(vec![lvl(1)]);
    let mut r = req(25);
    r.search = "7".to_string();
    assert!(search_levels(&r, catalog, NOW).is_none());
}

#[test]
fn suggested_strategy_filters_by_suggestion_set() {
    let mut catalog = cat(vec![lvl(1), lvl(2)]);
    catalog.suggested = vec![2];
    let out = search_levels(&req(27), catalog, NOW).unwrap();
    assert_eq!(ids_of(&out), vec![2]);
}

#[test]
fn unknown_code_returns_storage_order() {
    let out = search_levels(&req(99), cat(vec![lvl(3), lvl(1)]), NOW).unwrap();
    assert_eq!(ids_of(&out), vec![3, 1]);
}

fn clone_lvl(l: &Level) -> Level {
    Level {
        id: l.id,
        user_id: l.user_id,
        username: l.username.clone(),
        level_name: l.level_name.clone(),
        objects: l.objects,
        difficulty: l.difficulty,
        demon_difficulty: l.demon_difficulty,
        length: l.length,
        coins: l.coins,
        epic_rating: l.epic_rating,
        featured: l.featured,
        two_player: l.two_player,
        original: l.original,
        rated: l.rated,
        verified_coins: l.verified_coins,
        downloads: l.downloads,
        likes: l.likes,
        stars: l.stars,
        created_at: l.created_at,
        rated_at: l.rated_at,
    }
}
