use enochian_core::assoc::AssocMap;
use enochian_core::registry::{EnochianCore, GameState, QuestData, QuestRewards, SystemConfig};
use enochian_core::scores::ScoreMap;
use enochian_core::EnochianError;

fn empty_rewards() -> QuestRewards {
    QuestRewards {
        experience: 0,
        reputation_changes: AssocMap::new(),
        tradition_mastery_gains: AssocMap::new(),
        governor_relationship_changes: AssocMap::new(),
        bitcoin_rewards: 0,
        sacred_items: Vec::new(),
        hypertoken_rewards: Vec::new(),
        aethyr_access_gained: Vec::new(),
    }
}

fn plain_quest(id: &str, required_energy: u32) -> QuestData {
    QuestData {
        quest_id: id.to_string(),
        title: format!("Trial of {}", id),
        description: "A trial among the Aethyrs".to_string(),
        objectives: vec!["observe".to_string(), "record".to_string()],
        wisdom_taught: "patience".to_string(),
        choice_branches: Vec::new(),
        authenticity_score: 960,
        estimated_duration: 30,
        tradition_integration: vec!["Enochian".to_string()],
        governor_name: "ABRIOND".to_string(),
        difficulty_level: 3,
        required_energy,
        rewards: empty_rewards(),
        created_at: String::new(),
    }
}

fn rewarding_quest(id: &str, required_energy: u32) -> QuestData {
    let mut mastery_gains: ScoreMap = AssocMap::new();
    mastery_gains.insert("Enochian", 50);
    let mut reputation: ScoreMap = AssocMap::new();
    reputation.insert("overall", 100);
    let mut relationships: ScoreMap = AssocMap::new();
    relationships.insert("ABRIOND", 150);
    let mut q = plain_quest(id, required_energy);
    q.rewards = QuestRewards {
        experience: 10,
        reputation_changes: reputation,
        tradition_mastery_gains: mastery_gains,
        governor_relationship_changes: relationships,
        bitcoin_rewards: 1000,
        sacred_items: vec!["lamen".to_string()],
        hypertoken_rewards: vec!["tok1".to_string()],
        aethyr_access_gained: vec![2],
    };
    q
}

#[test]
fn scenario_create_start_complete() {
    let mut core = EnochianCore::new(SystemConfig::default());
    {
        let created = core.create_player_state("p1".to_string()).unwrap();
        assert_eq!(created.energy_level, 25);
        assert_eq!(created.aethyr_access, vec![1]);
        assert_eq!(created.tradition_mastery.get_milli("Enochian"), 100);
        assert_eq!(created.version, 1);
    }
    core.register_quest(rewarding_quest("q1", 10)).unwrap();
    core.start_quest("p1", "q1").unwrap();
    {
        let st = core.get_player_state("p1").unwrap();
        assert_eq!(st.energy_level, 15);
        assert_eq!(st.active_quests, vec!["q1".to_string()]);
        assert_eq!(st.version, 2);
    }
    let rewards = core.complete_quest("p1", "q1").unwrap();
    assert_eq!(rewards.bitcoin_rewards, 1000);
    let st = core.get_player_state("p1").unwrap();
    assert!(st.active_quests.is_empty());
    assert_eq!(st.completed_quests, vec!["q1".to_string()]);
    assert_eq!(st.version, 3);
    assert_eq!(st.balance_sats, 1000);
    assert_eq!(st.tradition_mastery.get_milli("Enochian"), 150);
    assert_eq!(st.reputation_scores.get_milli("overall"), 100);
    assert_eq!(st.governor_relationships.get_milli("ABRIOND"), 150);
    assert_eq!(st.sacred_items, vec!["lamen".to_string()]);
    assert_eq!(st.owned_hypertokens, vec!["tok1".to_string()]);
    assert_eq!(st.aethyr_access, vec![1, 2]);
}

#[test]
fn scenario_authenticity_below_threshold() {
    let mut core = EnochianCore::new(SystemConfig::default());
    let mut q = plain_quest("q_low", 5);
    q.authenticity_score = 800;
    assert_eq!(core.register_quest(q), Err(EnochianError::AuthenticityBelowThreshold));
}

#[test]
fn scenario_concurrency_limit() {
    let mut core = EnochianCore::new(SystemConfig::default());
    core.create_player_state("p1".to_string()).unwrap();
    for id in ["q1", "q2", "q3", "q4"] {
        core.register_quest(plain_quest(id, 1)).unwrap();
    }
    core.start_quest("p1", "q1").unwrap();
    core.start_quest("p1", "q2").unwrap();
    core.start_quest("p1", "q3").unwrap();
    assert_eq!(core.start_quest("p1", "q4"), Err(EnochianError::ConcurrencyLimitReached));
}

#[test]
fn duplicate_player_rejected() {
    let mut core = EnochianCore::new(SystemConfig::default());
    core.create_player_state("p1".to_string()).unwrap();
    let second = core.create_player_state("p1".to_string());
    assert!(matches!(second, Err(EnochianError::PlayerAlreadyExists)));
}

#[test]
fn duplicate_quest_rejected() {
    let mut core = EnochianCore::new(SystemConfig::default());
    core.register_quest(plain_quest("q1", 1)).unwrap();
    assert_eq!(core.register_quest(plain_quest("q1", 2)), Err(EnochianError::QuestAlreadyExists));
}

#[test]
fn quest_gate_rejections() {
    let mut core = EnochianCore::new(SystemConfig::default());
    let mut too_hard = plain_quest("q_hard", 1);
    too_hard.difficulty_level = 11;
    assert_eq!(core.register_quest(too_hard), Err(EnochianError::InvalidDifficulty));
    let mut zero_diff = plain_quest("q_zero", 1);
    zero_diff.difficulty_level = 0;
    assert_eq!(core.register_quest(zero_diff), Err(EnochianError::InvalidDifficulty));
    let hungry = plain_quest("q_hungry", 26);
    assert_eq!(core.register_quest(hungry), Err(EnochianError::EnergyRequirementTooHigh));
}

#[test]
fn start_quest_rejections() {
    let mut core = EnochianCore::new(SystemConfig::default());
    assert_eq!(core.start_quest("ghost", "q1"), Err(EnochianError::PlayerNotFound));
    core.create_player_state("p1".to_string()).unwrap();
    assert_eq!(core.start_quest("p1", "q1"), Err(EnochianError::QuestNotFound));
    core.register_quest(plain_quest("q1", 10)).unwrap();
    core.register_quest(plain_quest("q_greedy", 20)).unwrap();
    core.start_quest("p1", "q1").unwrap();
    assert_eq!(core.start_quest("p1", "q1"), Err(EnochianError::QuestAlreadyActive));
    assert_eq!(core.start_quest("p1", "q_greedy"), Err(EnochianError::InsufficientEnergy));
    core.complete_quest("p1", "q1").unwrap();
    assert_eq!(core.start_quest("p1", "q1"), Err(EnochianError::QuestAlreadyCompleted));
}

#[test]
fn complete_quest_rejections() {
    let mut core = EnochianCore::new(SystemConfig::default());
    assert_eq!(core.complete_quest("ghost", "q1").err(), Some(EnochianError::PlayerNotFound));
    core.create_player_state("p1".to_string()).unwrap();
    assert_eq!(core.complete_quest("p1", "q1").err(), Some(EnochianError::QuestNotFound));
    core.register_quest(plain_quest("q1", 1)).unwrap();
    assert_eq!(core.complete_quest("p1", "q1").err(), Some(EnochianError::QuestNotActive));
}

#[test]
fn energy_never_negative_or_overflowing() {
    let mut core = EnochianCore::new(SystemConfig::default());
    core.create_player_state("p1".to_string()).unwrap();
    core.register_quest(plain_quest("q25", 25)).unwrap();
    core.start_quest("p1", "q25").unwrap();
    let st = core.get_player_state("p1").unwrap();
    assert_eq!(st.energy_level, 0);
    core.complete_quest("p1", "q25").unwrap();
    let st = core.get_player_state("p1").unwrap();
    assert!(st.energy_level <= 25);
}

#[test]
fn mastery_clamps_at_unit() {
    let mut core = EnochianCore::new(SystemConfig::default());
    core.create_player_state("p1".to_string()).unwrap();
    let mut q = plain_quest("q_master", 1);
    let mut gains: ScoreMap = AssocMap::new();
    gains.insert("Enochian", 5000);
    q.rewards.tradition_mastery_gains = gains;
    core.register_quest(q).unwrap();
    core.start_quest("p1", "q_master").unwrap();
    core.complete_quest("p1", "q_master").unwrap();
    let st = core.get_player_state("p1").unwrap();
    assert_eq!(st.tradition_mastery.get_milli("Enochian"), 1000);
}

#[test]
fn item_grants_deduplicate() {
    let mut core = EnochianCore::new(SystemConfig::default());
    core.create_player_state("p1".to_string()).unwrap();
    let mut q1 = plain_quest("g1", 1);
    q1.rewards.sacred_items = vec!["ring".to_string(), "ring".to_string()];
    q1.rewards.aethyr_access_gained = vec![4, 4, 1];
    core.register_quest(q1).unwrap();
    core.start_quest("p1", "g1").unwrap();
    core.complete_quest("p1", "g1").unwrap();
    let st = core.get_player_state("p1").unwrap();
    assert_eq!(st.sacred_items, vec!["ring".to_string()]);
    assert_eq!(st.aethyr_access, vec![1, 4]);
}

#[test]
fn update_player_state_validates() {
    let mut core = EnochianCore::new(SystemConfig::default());
    assert_eq!(
        core.update_player_state("ghost", fresh_state("ghost")).unwrap_err(),
        EnochianError::PlayerNotFound
    );
    core.create_player_state("p1".to_string()).unwrap();
    let mut bad = fresh_state("p1");
    bad.energy_level = 26;
    assert_eq!(core.update_player_state("p1", bad).unwrap_err(), EnochianError::InvariantViolation);
    let mut renamed = fresh_state("p2");
    renamed.energy_level = 10;
    assert_eq!(
        core.update_player_state("p1", renamed).unwrap_err(),
        EnochianError::InvariantViolation
    );
    let mut good = fresh_state("p1");
    good.energy_level = 7;
    core.update_player_state("p1", good).unwrap();
    assert_eq!(core.get_player_state("p1").unwrap().energy_level, 7);
}

fn fresh_state(player_id: &str) -> GameState {
    GameState {
        player_id: player_id.to_string(),
        block_height: 0,
        completed_quests: Vec::new(),
        active_quests: Vec::new(),
        tradition_mastery: AssocMap::new(),
        governor_relationships: AssocMap::new(),
        reputation_scores: AssocMap::new(),
        owned_hypertokens: Vec::new(),
        sacred_items: Vec::new(),
        energy_level: 25,
        aethyr_access: vec![1],
        balance_sats: 0,
        staked_amount: 0,
        pending_rewards: 0,
        authenticity_score: 850,
        last_update: String::new(),
        version: 1,
    }
}

#[test]
fn statistics_aggregate() {
    let mut core = EnochianCore::new(SystemConfig::default());
    core.create_player_state("p1".to_string()).unwrap();
    core.create_player_state("p2".to_string()).unwrap();
    core.register_quest(plain_quest("q1", 1)).unwrap();
    core.register_quest(plain_quest("q2", 1)).unwrap();
    core.start_quest("p1", "q1").unwrap();
    core.start_quest("p2", "q1").unwrap();
    core.start_quest("p2", "q2").unwrap();
    core.complete_quest("p2", "q2").unwrap();
    let stats = core.get_statistics();
    assert_eq!(stats.total_players, 2);
    assert_eq!(stats.total_quests, 2);
    assert_eq!(stats.active_quests, 2);
    assert_eq!(stats.completed_quests, 1);
    assert_eq!(stats.total_hypertokens, 0);
    assert_eq!(stats.total_authenticity_milli, 1700);
}

#[test]
fn initialize_validates_config() {
    let mut core = EnochianCore::new(SystemConfig::default());
    assert!(core.initialize().is_ok());
    assert!(core.initialized);
    let mut lax = SystemConfig::default();
    lax.authenticity_threshold = 500;
    let mut core2 = EnochianCore::new(lax);
    assert_eq!(core2.initialize().unwrap_err(), EnochianError::SacredConstraintViolation);
    assert!(!core2.initialized);
}
