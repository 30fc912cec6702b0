use recruitment::banner::{create_banner, Banner};
use recruitment::character::{get_rarity_colour, Character, Language, Rarity};
use recruitment::engine::{RarityModel, RecruitmentEngine};
use recruitment::errors::RecruitError;

fn chr(id: u64, rarity: Rarity, name_ja: &str, name_en: &str) -> Character {
    Character {
        id,
        names: vec![
            (Language::Japanese, name_ja.to_string()),
            (Language::English, name_en.to_string()),
        ],
        rarity,
        asset: name_en.to_string(),
    }
}

fn small_pool() -> Vec<Character> {
    vec![
        chr(1, Rarity::One, "アイ", "Ai"),
        chr(2, Rarity::Two, "ホシノ", "Hoshino"),
        chr(3, Rarity::Three, "シロコ", "Shiroko"),
    ]
}

#[test]
fn test_weights_must_sum_to_one() {
    assert!(RarityModel::new(790_000, 185_000, 25_000).is_ok());
    // 99% in total.
    assert_eq!(
        RarityModel::new(790_000, 185_000, 15_000),
        Err(RecruitError::InvalidWeights)
    );
    // 101% in total.
    assert_eq!(
        RarityModel::new(790_000, 185_000, 35_000),
        Err(RecruitError::InvalidWeights)
    );
}

#[test]
fn test_engine_weight_error() {
    let e = RecruitmentEngine::new(small_pool(), 500_000, 500_000, 1, vec![], 0);
    assert!(matches!(e, Err(RecruitError::InvalidWeights)));
}

#[test]
fn test_tier_frequencies() {
    // Weights 79% / 18.5% / 2.5%, no boosting: over a million draws each
    // tier's frequency stays within half a percentage point of its weight.
    let engine =
        RecruitmentEngine::new(small_pool(), 790_000, 185_000, 25_000, vec![], 0).unwrap();
    let n = 1_000_000;
    let mut counts = [0u32; 3];
    for _ in 0..n {
        let u_tier: u32 = rand::random_range(0..1_000_000);
        let u_boost: u32 = rand::random_range(0..1_000_000);
        let j: u64 = rand::random();
        let idx = engine.select(u_tier, u_boost, j);
        match engine.pool[idx].rarity {
            Rarity::One => counts[0] += 1,
            Rarity::Two => counts[1] += 1,
            Rarity::Three => counts[2] += 1,
        }
    }
    let freq = |c: u32| c as f64 / n as f64;
    assert!((freq(counts[0]) - 0.79).abs() < 0.005);
    assert!((freq(counts[1]) - 0.185).abs() < 0.005);
    assert!((freq(counts[2]) - 0.025).abs() < 0.005);
}

#[test]
fn test_boost_share_within_tier() {
    // Tier three holds A (id 10) and B (id 11), B boosted with fraction 0.7:
    // conditioned on tier three, B takes about 70% of the draws.
    let pool = vec![
        chr(1, Rarity::One, "アイ", "Ai"),
        chr(2, Rarity::Two, "ウイ", "Ui"),
        chr(10, Rarity::Three, "アコ", "Ako"),
        chr(11, Rarity::Three, "ヒナ", "Hina"),
    ];
    let engine =
        RecruitmentEngine::new(pool, 790_000, 185_000, 25_000, vec![11], 700_000).unwrap();
    let n = 1_000_000;
    let mut b_hits = 0u32;
    for _ in 0..n {
        // Condition on tier three by fixing the tier draw inside its interval.
        let u_boost: u32 = rand::random_range(0..1_000_000);
        let j: u64 = rand::random();
        let idx = engine.select(999_999, u_boost, j);
        let id = engine.pool[idx].id;
        assert!(id == 10 || id == 11);
        if id == 11 {
            b_hits += 1;
        }
    }
    let share = b_hits as f64 / n as f64;
    assert!((share - 0.70).abs() < 0.02);
}

#[test]
fn test_zero_weight_tier_never_sampled() {
    // Tier one has weight zero but a non-empty pool: it never comes up.
    let engine =
        RecruitmentEngine::new(small_pool(), 0, 975_000, 25_000, vec![], 0).unwrap();
    for _ in 0..100_000 {
        let u_tier: u32 = rand::random_range(0..1_000_000);
        let u_boost: u32 = rand::random_range(0..1_000_000);
        let j: u64 = rand::random();
        let idx = engine.select(u_tier, u_boost, j);
        assert_ne!(engine.pool[idx].rarity, Rarity::One);
    }
}

#[test]
fn test_batch_allows_repeats() {
    // Ten draws from a pool of three characters must repeat somewhere, and
    // the batch never rejects that.
    let banner = create_banner(&small_pool(), &vec![], vec![]).unwrap();
    let cs = banner.draw_ten();
    assert_eq!(cs.len(), 10);
    let mut distinct: Vec<u64> = Vec::new();
    for c in cs.iter() {
        if !distinct.contains(&c.id) {
            distinct.push(c.id);
        }
    }
    assert!(distinct.len() <= 3);
    assert!(distinct.len() < cs.len());
}

#[test]
fn test_identical_construction_draws_identically() {
    // Two banners built from identical parameters select the same member
    // for the same random values, so their draw distributions coincide.
    let mk = || -> Banner {
        create_banner(&small_pool(), &vec![], vec![3]).unwrap()
    };
    let b1 = mk();
    let b2 = mk();
    for _ in 0..10_000 {
        let u_tier: u32 = rand::random_range(0..1_000_000);
        let u_boost: u32 = rand::random_range(0..1_000_000);
        let j: u64 = rand::random();
        let i1 = b1.engine.select(u_tier, u_boost, j);
        let i2 = b2.engine.select(u_tier, u_boost, j);
        assert_eq!(i1, i2);
        assert_eq!(b1.engine.pool[i1].id, b2.engine.pool[i2].id);
    }
}

#[test]
fn test_boost_member_absent_fails() {
    // Identity 99 is not in the pool: construction must refuse the boost.
    let r = create_banner(&small_pool(), &vec![], vec![99]);
    assert!(matches!(r, Err(RecruitError::InvalidBoost)));
    let e = RecruitmentEngine::new(small_pool(), 790_000, 185_000, 25_000, vec![99], 700_000);
    assert!(matches!(e, Err(RecruitError::InvalidBoost)));
}

#[test]
fn test_boost_fraction_above_one_fails() {
    let e = RecruitmentEngine::new(small_pool(), 790_000, 185_000, 25_000, vec![3], 1_000_001);
    assert!(matches!(e, Err(RecruitError::InvalidBoost)));
}

#[test]
fn test_empty_tier_pool_fails() {
    // Tier two has positive weight but no member.
    let pool = vec![
        chr(1, Rarity::One, "アイ", "Ai"),
        chr(3, Rarity::Three, "シロコ", "Shiroko"),
    ];
    let e = RecruitmentEngine::new(pool, 790_000, 185_000, 25_000, vec![], 0);
    assert!(matches!(e, Err(RecruitError::EmptyTierPool)));
}

#[test]
fn test_duplicate_identity_fails() {
    let pool = vec![
        chr(1, Rarity::One, "アイ", "Ai"),
        chr(2, Rarity::Two, "ホシノ", "Hoshino"),
        chr(2, Rarity::Three, "シロコ", "Shiroko"),
    ];
    let e = RecruitmentEngine::new(pool, 790_000, 185_000, 25_000, vec![], 0);
    assert!(matches!(e, Err(RecruitError::EmptyTierPool)));
}

#[test]
fn test_create_banner_shape() {
    // The catalog minus the excluded identity forms the pool; the sparkable
    // display list holds exactly the boosted characters.
    let catalog = vec![
        chr(1, Rarity::One, "アイ", "Ai"),
        chr(2, Rarity::Two, "ホシノ", "Hoshino"),
        chr(3, Rarity::Three, "シロコ", "Shiroko"),
        chr(4, Rarity::One, "ノゾミ", "Nozomi"),
    ];
    let banner = create_banner(&catalog, &vec![4], vec![2, 3]).unwrap();
    let pool_ids: Vec<u64> = banner.engine.pool.iter().map(|c| c.id).collect();
    assert_eq!(pool_ids, vec![1, 2, 3]);
    let boosted_ids: Vec<u64> = banner.boosted_characters().iter().map(|c| c.id).collect();
    assert_eq!(boosted_ids, vec![2, 3]);
    assert_eq!(
        banner.localized_name(Language::English).unwrap(),
        "Rate-Up Recruitment"
    );
    assert_eq!(banner.name, "ピックアップ募集");
}

#[test]
fn test_missing_translation() {
    let banner = create_banner(&small_pool(), &vec![], vec![]).unwrap();
    // Only an English translation is listed.
    assert_eq!(
        banner.localized_name(Language::Japanese),
        Err(RecruitError::MissingTranslation)
    );
}

#[test]
fn test_character_name_lookup() {
    let c = chr(2, Rarity::Two, "ホシノ", "Hoshino");
    assert_eq!(c.name(Language::Japanese).unwrap(), "ホシノ");
    assert_eq!(c.name(Language::English).unwrap(), "Hoshino");
    let bare = Character {
        id: 7,
        names: vec![(Language::Japanese, "モモイ".to_string())],
        rarity: Rarity::One,
        asset: "Momoi".to_string(),
    };
    assert_eq!(
        bare.name(Language::English),
        Err(RecruitError::MissingTranslation)
    );
}

#[test]
fn test_draws_stay_in_pool() {
    let banner = create_banner(&small_pool(), &vec![], vec![3]).unwrap();
    for _ in 0..1_000 {
        let c = banner.draw();
        assert!(c.id == 1 || c.id == 2 || c.id == 3);
    }
}

#[test]
fn test_rarity_colours() {
    assert_eq!(get_rarity_colour(Rarity::One), (227, 234, 240));
    assert_eq!(get_rarity_colour(Rarity::Two), (255, 248, 124));
    assert_eq!(get_rarity_colour(Rarity::Three), (253, 198, 229));
}
