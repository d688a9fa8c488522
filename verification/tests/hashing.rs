use dashium_core::hash::{generate_hash, hash_gjp2, salt_and_sha1};
use dashium_core::model::Level;

fn level(id: i32, stars: i16, verified_coins: bool) -> Level {
    Level {
        id,
        user_id: 1,
        username: "u".to_string(),
        level_name: "n".to_string(),
        objects: 0,
        difficulty: 0,
        demon_difficulty: 0,
        length: 0,
        coins: false,
        epic_rating: 0,
        featured: false,
        two_player: false,
        original: false,
        rated: false,
        verified_coins,
        downloads: 0,
        likes: 0,
        stars,
        created_at: 0,
        rated_at: None,
    }
}

#[test]
fn gjp2_token_matches_known_digest() {
    assert_eq!(hash_gjp2("password"), "b35ab22e8265f5904100b253e29511f129ca1ce8");
    assert_eq!(hash_gjp2(""), "97e14c941814de32c2a6ad640d242ac6cebd21b0");
}

#[test]
fn salting_appends_before_digesting() {
    assert_eq!(salt_and_sha1("password", "mI29fmAnxgTs"), hash_gjp2("password"));
}

#[test]
fn integrity_hash_known_value() {
    let levels = vec![level(10, 2, false)];
    assert_eq!(generate_hash(&levels), "92fb555553cf1734bb538d1ecd22c82815693a57");
}

#[test]
fn integrity_hash_negative_id_uses_sign_character() {
    let levels = vec![level(-55, 1, false)];
    assert_eq!(generate_hash(&levels), "0bcec3ed06872cb82d981dab5e278e1af3562f62");
}

#[test]
fn integrity_hash_is_deterministic() {
    let a = vec![level(1, 10, true), level(3, 3, true)];
    let b = vec![level(1, 10, true), level(3, 3, true)];
    assert_eq!(generate_hash(&a), generate_hash(&b));
}

#[test]
fn integrity_hash_ignores_unhashed_fields() {
    let mut a = level(1, 10, true);
    a.likes = 55;
    a.level_name = "other".to_string();
    let b = level(1, 10, true);
    assert_eq!(generate_hash(&vec![a]), generate_hash(&vec![b]));
}

#[test]
fn permuting_the_result_changes_the_hash() {
    let a = vec![level(1, 10, true), level(3, 3, true)];
    let b = vec![level(3, 3, true), level(1, 10, true)];
    assert_eq!(generate_hash(&a), "9121dcd095ebaffd6507f64274a8e882c14fdad5");
    assert_eq!(generate_hash(&b), "438f8be46ae1d85501bbe88e0884c4a01d2bce9b");
    assert_ne!(generate_hash(&a), generate_hash(&b));
}
