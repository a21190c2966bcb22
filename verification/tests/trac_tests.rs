use enochian_core::assoc::AssocMap;
use enochian_core::trac::{
    ActionType, ConsequenceDuration, ConsequenceType, QuestAction, StateConsequence,
    TracStateManager,
};
use enochian_core::EnochianError;

fn action(kind: ActionType, quest_id: &str, proof_token: &str) -> QuestAction {
    QuestAction {
        action_type: kind,
        quest_id: quest_id.to_string(),
        choice_id: None,
        parameters: AssocMap::new(),
        authenticity_proof: proof_token.to_string(),
    }
}

#[test]
fn genesis_state_shape() {
    let mut mgr = TracStateManager::new();
    let st = mgr.initialize_player_state("p1");
    assert_eq!(st.player_id, "p1");
    assert_eq!(st.current_quest_id, "welcome_quest");
    assert_eq!(st.energy_level, 25);
    assert_eq!(st.tradition_mastery.get_milli("Enochian"), 100);
    assert_eq!(st.tradition_mastery.get_milli("Hermetic_Qabalah"), 50);
    assert!(st.completed_quests.is_empty());
    assert!(st.aethyr_access.is_empty());
    assert_eq!(st.state_hash.player_id, "p1");
    assert_eq!(st.state_hash.quest_id, "welcome_quest");
    assert_eq!(st.state_hash.completed_count, 0);
    assert!(mgr.get_current_state().is_some());
}

#[test]
fn scenario_ritual_transition_finalizes() {
    let mut mgr = TracStateManager::new();
    mgr.initialize_player_state("p1");
    let t = mgr
        .propose_state_transition(action(ActionType::PerformRitual, "rite1", "enochian_rite"))
        .unwrap();
    assert_eq!(t.consequences.len(), 2);
    assert_eq!(t.consequences[0].consequence_type, ConsequenceType::EnergyModification);
    assert_eq!(t.consequences[0].value_change, -5);
    assert_eq!(t.consequences[1].consequence_type, ConsequenceType::WisdomUnlock);
    assert_eq!(t.consequences[1].target, "ritual_knowledge");
    assert!(t.validator_signatures.is_empty());

    let tid = t.transition_id;
    let s1 = mgr.validate_transition(&tid, "enochian_validator").unwrap();
    assert_eq!(s1.validator_id, "enochian_validator");
    assert_eq!(s1.authenticity_score, 950);
    assert_eq!(mgr.get_consensus_status().pending_transitions, 1);
    assert_eq!(mgr.get_current_state().unwrap().energy_level, 25);

    mgr.validate_transition(&tid, "hermetic_validator").unwrap();
    assert_eq!(mgr.get_consensus_status().pending_transitions, 1);

    mgr.validate_transition(&tid, "tradition_validator").unwrap();
    assert_eq!(mgr.get_consensus_status().pending_transitions, 0);
    assert_eq!(mgr.get_current_state().unwrap().energy_level, 20);
    assert_eq!(
        mgr.validate_transition(&tid, "enochian_validator").err(),
        Some(EnochianError::TransitionNotFound)
    );
}

#[test]
fn scenario_quorum_arithmetic() {
    let mgr = TracStateManager::new();
    let status = mgr.get_consensus_status();
    assert_eq!(status.validator_count, 3);
    assert_eq!(status.consensus_threshold_milli, 670);
    assert_eq!(status.required_signatures, 3);
}

#[test]
fn authenticity_heuristic_scores() {
    let mut mgr = TracStateManager::new();
    mgr.initialize_player_state("p1");
    let plain = mgr
        .propose_state_transition(action(ActionType::MakeChoice, "c1", "ordinary proof"))
        .unwrap();
    let s = mgr.validate_transition(&plain.transition_id, "hermetic_validator").unwrap();
    assert_eq!(s.authenticity_score, 850);

    let mut with_tradition = action(ActionType::MakeChoice, "c2", "an enochian token");
    with_tradition.parameters.insert("tradition", "Enochian".to_string());
    let t = mgr.propose_state_transition(with_tradition).unwrap();
    let s2 = mgr.validate_transition(&t.transition_id, "hermetic_validator").unwrap();
    assert_eq!(s2.authenticity_score, 1000);
}

#[test]
fn complete_quest_consequences() {
    let mut mgr = TracStateManager::new();
    mgr.initialize_player_state("p1");
    let t = mgr
        .propose_state_transition(action(ActionType::CompleteQuest, "q1", "proof"))
        .unwrap();
    assert_eq!(t.consequences.len(), 2);
    assert_eq!(t.consequences[0].consequence_type, ConsequenceType::ReputationChange);
    assert_eq!(t.consequences[0].target, "overall");
    assert_eq!(t.consequences[0].value_change, 100);
    assert_eq!(t.consequences[1].consequence_type, ConsequenceType::TraditionMastery);
    assert_eq!(t.consequences[1].value_change, 50);
    let tid = t.transition_id;
    mgr.validate_transition(&tid, "enochian_validator").unwrap();
    mgr.validate_transition(&tid, "hermetic_validator").unwrap();
    mgr.validate_transition(&tid, "tradition_validator").unwrap();
    let cur = mgr.get_current_state().unwrap();
    assert_eq!(cur.reputation_scores.get_milli("overall"), 100);
    assert_eq!(cur.tradition_mastery.get_milli("Enochian"), 150);
}

#[test]
fn governor_interaction_uses_parameter() {
    let mut mgr = TracStateManager::new();
    mgr.initialize_player_state("p1");
    let mut a = action(ActionType::InteractWithGovernor, "g1", "proof");
    a.parameters.insert("governor_name", "ABRIOND".to_string());
    let t = mgr.propose_state_transition(a).unwrap();
    assert_eq!(t.consequences[0].target, "ABRIOND");
    assert_eq!(t.consequences[0].value_change, 150);

    let unnamed = mgr
        .propose_state_transition(action(ActionType::InteractWithGovernor, "g2", "proof"))
        .unwrap();
    assert_eq!(unnamed.consequences[0].target, "unknown");
}

#[test]
fn energy_clamps_at_zero_over_rituals() {
    let mut mgr = TracStateManager::new();
    mgr.initialize_player_state("p1");
    for round in 0u32..7 {
        let t = mgr
            .propose_state_transition(action(ActionType::PerformRitual, "rite", "proof"))
            .unwrap();
        let tid = t.transition_id;
        mgr.validate_transition(&tid, "enochian_validator").unwrap();
        mgr.validate_transition(&tid, "hermetic_validator").unwrap();
        mgr.validate_transition(&tid, "tradition_validator").unwrap();
        let energy = mgr.get_current_state().unwrap().energy_level;
        let expected = if round < 5 { 25 - 5 * (round + 1) } else { 0 };
        assert_eq!(energy, expected);
    }
}

#[test]
fn item_and_tier_grants_idempotent() {
    let mgr = TracStateManager::new();
    let mut base = TracStateManager::new();
    let genesis = base.initialize_player_state("p1");
    let gain = StateConsequence {
        consequence_type: ConsequenceType::ItemGain,
        target: "ring".to_string(),
        value_change: 0,
        duration: ConsequenceDuration::Permanent,
        authenticity_impact: 0,
    };
    let tier = StateConsequence {
        consequence_type: ConsequenceType::AethyrAccess,
        target: "7".to_string(),
        value_change: 0,
        duration: ConsequenceDuration::Permanent,
        authenticity_impact: 0,
    };
    let twice = vec![
        gain,
        StateConsequence {
            consequence_type: ConsequenceType::ItemGain,
            target: "ring".to_string(),
            value_change: 0,
            duration: ConsequenceDuration::Permanent,
            authenticity_impact: 0,
        },
        tier,
        StateConsequence {
            consequence_type: ConsequenceType::AethyrAccess,
            target: "7".to_string(),
            value_change: 0,
            duration: ConsequenceDuration::Permanent,
            authenticity_impact: 0,
        },
        StateConsequence {
            consequence_type: ConsequenceType::AethyrAccess,
            target: "not a tier".to_string(),
            value_change: 0,
            duration: ConsequenceDuration::Permanent,
            authenticity_impact: 0,
        },
    ];
    let out = mgr.apply_consequences(&genesis, &twice);
    assert_eq!(out.sacred_items, vec!["ring".to_string()]);
    assert_eq!(out.aethyr_access, vec![7]);
}

#[test]
fn state_hash_discriminates() {
    let mut m1 = TracStateManager::new();
    let a = m1.initialize_player_state("p1");
    let mut m2 = TracStateManager::new();
    let b = m2.initialize_player_state("p1");
    assert_eq!(a.state_hash.player_id, b.state_hash.player_id);
    assert_eq!(a.state_hash.quest_id, b.state_hash.quest_id);
    assert_eq!(a.state_hash.timestamp, b.state_hash.timestamp);
    assert_eq!(a.state_hash.completed_count, b.state_hash.completed_count);

    let mut m3 = TracStateManager::new();
    let c = m3.initialize_player_state("p2");
    assert_ne!(a.state_hash.player_id, c.state_hash.player_id);
}

#[test]
fn validator_cannot_sign_twice() {
    let mut mgr = TracStateManager::new();
    mgr.initialize_player_state("p1");
    let t = mgr.propose_state_transition(action(ActionType::MakeChoice, "q", "proof")).unwrap();
    let tid = t.transition_id;
    mgr.validate_transition(&tid, "enochian_validator").unwrap();
    assert_eq!(
        mgr.validate_transition(&tid, "enochian_validator").err(),
        Some(EnochianError::ValidatorAlreadySigned)
    );
    assert_eq!(mgr.get_consensus_status().pending_transitions, 1);
}

#[test]
fn propose_without_state_rejected() {
    let mut mgr = TracStateManager::new();
    let r = mgr.propose_state_transition(action(ActionType::MakeChoice, "q", "proof"));
    assert_eq!(r.err(), Some(EnochianError::NoCurrentState));
}

#[test]
fn pending_collection_is_bounded() {
    let mut mgr = TracStateManager::new();
    mgr.initialize_player_state("p1");
    for _ in 0..100 {
        mgr.propose_state_transition(action(ActionType::MakeChoice, "q", "proof")).unwrap();
    }
    let overflow = mgr.propose_state_transition(action(ActionType::MakeChoice, "q", "proof"));
    assert_eq!(overflow.err(), Some(EnochianError::PendingLimitReached));
}

#[test]
fn unknown_transition_rejected() {
    let mut mgr = TracStateManager::new();
    mgr.initialize_player_state("p1");
    let t = mgr.propose_state_transition(action(ActionType::MakeChoice, "q", "proof")).unwrap();
    let mut other = t.transition_id.duplicate();
    other.quest_id = "missing".to_string();
    assert_eq!(
        mgr.validate_transition(&other, "enochian_validator").err(),
        Some(EnochianError::TransitionNotFound)
    );
}

#[test]
fn validator_weights_even_share() {
    let mgr = TracStateManager::new();
    let weights = mgr.get_validator_weights();
    assert_eq!(weights.get_milli("enochian_validator"), 333);
    assert_eq!(weights.get_milli("hermetic_validator"), 333);
    assert_eq!(weights.get_milli("tradition_validator"), 333);
    assert_eq!(weights.get_milli("unknown"), 0);
}

#[test]
fn transition_links_state_hashes() {
    let mut mgr = TracStateManager::new();
    let genesis = mgr.initialize_player_state("p1");
    let t = mgr
        .propose_state_transition(action(ActionType::PerformRitual, "rite", "proof"))
        .unwrap();
    assert_eq!(t.from_state_hash.player_id, genesis.state_hash.player_id);
    assert_eq!(t.from_state_hash.timestamp, genesis.state_hash.timestamp);
    assert_eq!(t.to_state_hash.player_id, "p1");
    assert_eq!(t.to_state_hash.completed_count, 0);
}
