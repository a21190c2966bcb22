//! The quest registry and canonical player state store.
//!
//! This module owns one [`GameState`] per player and one [`QuestData`] per
//! quest id, and enforces every lifecycle invariant before a mutation:
//! energy stays in `[0, MAX_ENERGY]`, active and completed quest sets stay
//! disjoint and duplicate-free, score tables stay clamped, and the version
//! counter grows by one on every successful mutation.

use vstd::prelude::*;
use crate::assoc::AssocMap;
use crate::clock;
use crate::constants;
use crate::scores;
use crate::scores::ScoreMap;
use crate::store;
use crate::store::Keyed;
use crate::strutil;
use crate::EnochianError;

verus! {

/// Process-wide configuration of the engine.
pub struct SystemConfig {
    /// Minimum authenticity score a quest needs at registration, in thousandths.
    pub authenticity_threshold: i64,
    /// Maximum number of concurrently active quests per player.
    pub max_concurrent_quests: u32,
    /// Weighting of each tradition, in thousandths.
    pub tradition_weighting: ScoreMap,
    /// Governor interaction cooldown in blocks.
    pub governor_interaction_cooldown: u32,
    /// Whether peer-to-peer synchronization is enabled.
    pub enable_p2p_sync: bool,
    /// Whether on-chain integration is enabled.
    pub enable_bitcoin_integration: bool,
}

impl SystemConfig {
    /// The configuration's tables are well formed.
    pub open spec fn wf(self) -> bool {
        self.tradition_weighting.wf()
    }
}

impl Default for SystemConfig {
    /// The default policy: 0.95 authenticity threshold, three concurrent
    /// quests, the five major tradition weights, and a 144-block cooldown.
    fn default() -> (d: SystemConfig)
        ensures
            d.wf(),
            d.authenticity_threshold == constants::AUTHENTICITY_THRESHOLD_MILLI,
            d.max_concurrent_quests == 3,
            d.governor_interaction_cooldown == 144,
            !d.enable_p2p_sync,
            !d.enable_bitcoin_integration,
            d.tradition_weighting@ == Map::<Seq<char>, i64>::empty()
                .insert("Enochian"@, 600i64)
                .insert("Hermetic_Qabalah"@, 150i64)
                .insert("Thelema"@, 100i64)
                .insert("Golden_Dawn"@, 100i64)
                .insert("Chaos_Magic"@, 50i64),
    {
        let mut weighting: ScoreMap = AssocMap::new();
        weighting.insert("Enochian", 600);
        weighting.insert("Hermetic_Qabalah", 150);
        weighting.insert("Thelema", 100);
        weighting.insert("Golden_Dawn", 100);
        weighting.insert("Chaos_Magic", 50);
        SystemConfig {
            authenticity_threshold: constants::AUTHENTICITY_THRESHOLD_MILLI,
            max_concurrent_quests: 3,
            tradition_weighting: weighting,
            governor_interaction_cooldown: 144,
            enable_p2p_sync: false,
            enable_bitcoin_integration: false,
        }
    }
}

/// The identity-relevant content of a player's game state.
#[verifier::ext_equal]
pub struct GameStateModel {
    /// The player's identifier.
    pub player_id: Seq<char>,
    /// Current block height.
    pub block_height: int,
    /// Completed quest ids, in completion order.
    pub completed_quests: Seq<Seq<char>>,
    /// Active quest ids, in start order.
    pub active_quests: Seq<Seq<char>>,
    /// Mastery per tradition, in thousandths of `[0, 1]`.
    pub tradition_mastery: Map<Seq<char>, i64>,
    /// Relationship per governor, in thousandths of `[-1, 1]`.
    pub governor_relationships: Map<Seq<char>, i64>,
    /// Reputation per category, in thousandths, unbounded.
    pub reputation_scores: Map<Seq<char>, i64>,
    /// Owned hypertoken ids.
    pub owned_hypertokens: Seq<Seq<char>>,
    /// Owned sacred items.
    pub sacred_items: Seq<Seq<char>>,
    /// Energy in `[0, MAX_ENERGY]`.
    pub energy_level: int,
    /// Accessible Aethyr tiers.
    pub aethyr_access: Seq<u32>,
    /// Balance in satoshis.
    pub balance_sats: int,
    /// Staked amount in satoshis.
    pub staked_amount: int,
    /// Pending rewards in satoshis.
    pub pending_rewards: int,
    /// Overall authenticity score, in thousandths of `[0, 1]`.
    pub authenticity_score: int,
    /// Version counter; grows by one per successful mutation.
    pub version: int,
}

/// Canonical game state of one player.
///
/// The `last_update` stamp comes from the wall clock and is deliberately
/// absent from the state's model: no contract depends on it.
pub struct GameState {
    /// The player's identifier.
    pub player_id: String,
    /// Current block height.
    pub block_height: u64,
    /// Completed quest ids, in completion order.
    pub completed_quests: Vec<String>,
    /// Active quest ids, in start order.
    pub active_quests: Vec<String>,
    /// Mastery per tradition, in thousandths.
    pub tradition_mastery: ScoreMap,
    /// Relationship per governor, in thousandths.
    pub governor_relationships: ScoreMap,
    /// Reputation per category, in thousandths.
    pub reputation_scores: ScoreMap,
    /// Owned hypertoken ids.
    pub owned_hypertokens: Vec<String>,
    /// Owned sacred items.
    pub sacred_items: Vec<String>,
    /// Energy in `[0, MAX_ENERGY]`.
    pub energy_level: u32,
    /// Accessible Aethyr tiers.
    pub aethyr_access: Vec<u32>,
    /// Balance in satoshis.
    pub balance_sats: u64,
    /// Staked amount in satoshis.
    pub staked_amount: u64,
    /// Pending rewards in satoshis.
    pub pending_rewards: u64,
    /// Overall authenticity score, in thousandths.
    pub authenticity_score: i64,
    /// Wall-clock stamp of the last mutation.
    pub last_update: String,
    /// Version counter.
    pub version: u64,
}

impl View for GameState {
    type V = GameStateModel;

    open spec fn view(&self) -> GameStateModel {
        GameStateModel {
            player_id: self.player_id@,
            block_height: self.block_height as int,
            completed_quests: self.completed_quests.deep_view(),
            active_quests: self.active_quests.deep_view(),
            tradition_mastery: self.tradition_mastery@,
            governor_relationships: self.governor_relationships@,
            reputation_scores: self.reputation_scores@,
            owned_hypertokens: self.owned_hypertokens.deep_view(),
            sacred_items: self.sacred_items.deep_view(),
            energy_level: self.energy_level as int,
            aethyr_access: self.aethyr_access@,
            balance_sats: self.balance_sats as int,
            staked_amount: self.staked_amount as int,
            pending_rewards: self.pending_rewards as int,
            authenticity_score: self.authenticity_score as int,
            version: self.version as int,
        }
    }
}

impl Keyed for GameState {
    open spec fn key(self) -> Seq<char> {
        self.player_id@
    }
}

/// The lifecycle invariants of one player's state.
pub open spec fn state_model_wf(m: GameStateModel) -> bool {
    &&& 0 <= m.energy_level <= constants::MAX_ENERGY
    &&& strutil::no_dups(m.completed_quests)
    &&& strutil::no_dups(m.active_quests)
    &&& strutil::seqs_disjoint(m.active_quests, m.completed_quests)
    &&& scores::unit_scores(m.tradition_mastery)
    &&& scores::signed_unit_scores(m.governor_relationships)
    &&& strutil::no_dups(m.owned_hypertokens)
    &&& strutil::no_dups(m.sacred_items)
    &&& strutil::no_dups_u32(m.aethyr_access)
    &&& 0 <= m.authenticity_score <= 1000
    &&& m.version >= 1
}

impl GameState {
    /// The state's score tables are well formed and its model meets the
    /// lifecycle invariants.
    pub open spec fn wf(self) -> bool {
        &&& self.tradition_mastery.wf()
        &&& self.governor_relationships.wf()
        &&& self.reputation_scores.wf()
        &&& state_model_wf(self@)
    }

    /// Decides every lifecycle invariant of this state.
    pub fn check_wf(&self) -> (r: bool)
        ensures
            r == self.wf(),
    {
        if !self.tradition_mastery.check_wf() {
            return false;
        }
        if !self.governor_relationships.check_wf() {
            return false;
        }
        if !self.reputation_scores.check_wf() {
            return false;
        }
        if self.energy_level > constants::MAX_ENERGY {
            return false;
        }
        if !strutil::no_dups_strings_exec(&self.completed_quests) {
            return false;
        }
        if !strutil::no_dups_strings_exec(&self.active_quests) {
            return false;
        }
        if !strutil::disjoint_strings_exec(&self.active_quests, &self.completed_quests) {
            return false;
        }
        if !self.tradition_mastery.check_in_range(0, 1000) {
            return false;
        }
        if !self.governor_relationships.check_in_range(-1000, 1000) {
            return false;
        }
        if !strutil::no_dups_strings_exec(&self.owned_hypertokens) {
            return false;
        }
        if !strutil::no_dups_strings_exec(&self.sacred_items) {
            return false;
        }
        if !strutil::no_dups_u32_exec(&self.aethyr_access) {
            return false;
        }
        if self.authenticity_score < 0 || self.authenticity_score > 1000 {
            return false;
        }
        if self.version < 1 {
            return false;
        }
        true
    }
}

/// A fresh player's state: full energy, access to the first Aethyr, the
/// seed Enochian mastery, the baseline authenticity score, and version 1.
pub open spec fn is_initial_player_model(m: GameStateModel, pid: Seq<char>) -> bool {
    &&& m.player_id == pid
    &&& m.block_height == 0
    &&& m.completed_quests == Seq::<Seq<char>>::empty()
    &&& m.active_quests == Seq::<Seq<char>>::empty()
    &&& m.tradition_mastery == Map::<Seq<char>, i64>::empty().insert("Enochian"@, 100i64)
    &&& m.governor_relationships == Map::<Seq<char>, i64>::empty()
    &&& m.reputation_scores == Map::<Seq<char>, i64>::empty()
    &&& m.owned_hypertokens == Seq::<Seq<char>>::empty()
    &&& m.sacred_items == Seq::<Seq<char>>::empty()
    &&& m.energy_level == constants::MAX_ENERGY
    &&& m.aethyr_access == seq![1u32]
    &&& m.balance_sats == 0
    &&& m.staked_amount == 0
    &&& m.pending_rewards == 0
    &&& m.authenticity_score == 850
    &&& m.version == 1
}

/// One choice branch of a quest; descriptive content opaque to the engine.
pub struct QuestChoice {
    /// The choice's identifier.
    pub choice_id: String,
    /// Display description.
    pub description: String,
    /// Descriptive consequence notes.
    pub consequences: Vec<String>,
    /// Difficulty modifier, in thousandths.
    pub difficulty_modifier: i64,
    /// Tradition alignment, in thousandths.
    pub tradition_alignment: i64,
    /// Authenticity impact, in thousandths.
    pub authenticity_impact: i64,
    /// Traditions required to take this choice.
    pub required_traditions: Vec<String>,
    /// Energy cost of the choice.
    pub energy_cost: u32,
}

/// The identity-relevant content of a reward bundle.
#[verifier::ext_equal]
pub struct RewardsModel {
    /// Experience points granted.
    pub experience: int,
    /// Reputation deltas per category, in thousandths.
    pub reputation_changes: Map<Seq<char>, i64>,
    /// Mastery deltas per tradition, in thousandths.
    pub tradition_mastery_gains: Map<Seq<char>, i64>,
    /// Relationship deltas per governor, in thousandths.
    pub governor_relationship_changes: Map<Seq<char>, i64>,
    /// Reward currency in satoshis.
    pub bitcoin_rewards: int,
    /// Sacred items granted.
    pub sacred_items: Seq<Seq<char>>,
    /// Hypertoken ids granted.
    pub hypertoken_rewards: Seq<Seq<char>>,
    /// Aethyr tiers unlocked.
    pub aethyr_access_gained: Seq<u32>,
}

/// The reward bundle of a quest.
pub struct QuestRewards {
    /// Experience points granted.
    pub experience: u32,
    /// Reputation deltas per category, in thousandths.
    pub reputation_changes: ScoreMap,
    /// Mastery deltas per tradition, in thousandths.
    pub tradition_mastery_gains: ScoreMap,
    /// Relationship deltas per governor, in thousandths.
    pub governor_relationship_changes: ScoreMap,
    /// Reward currency in satoshis.
    pub bitcoin_rewards: u64,
    /// Sacred items granted.
    pub sacred_items: Vec<String>,
    /// Hypertoken ids granted.
    pub hypertoken_rewards: Vec<String>,
    /// Aethyr tiers unlocked.
    pub aethyr_access_gained: Vec<u32>,
}

impl View for QuestRewards {
    type V = RewardsModel;

    open spec fn view(&self) -> RewardsModel {
        RewardsModel {
            experience: self.experience as int,
            reputation_changes: self.reputation_changes@,
            tradition_mastery_gains: self.tradition_mastery_gains@,
            governor_relationship_changes: self.governor_relationship_changes@,
            bitcoin_rewards: self.bitcoin_rewards as int,
            sacred_items: self.sacred_items.deep_view(),
            hypertoken_rewards: self.hypertoken_rewards.deep_view(),
            aethyr_access_gained: self.aethyr_access_gained@,
        }
    }
}

impl QuestRewards {
    /// The bundle's delta tables are well formed.
    pub open spec fn wf(self) -> bool {
        &&& self.reputation_changes.wf()
        &&& self.tradition_mastery_gains.wf()
        &&& self.governor_relationship_changes.wf()
    }

    /// Copies the bundle; the copy grants exactly the same rewards.
    pub fn duplicate(&self) -> (r: QuestRewards)
        ensures
            r@ == self@,
            self.wf() ==> r.wf(),
    {
        QuestRewards {
            experience: self.experience,
            reputation_changes: self.reputation_changes.duplicate(),
            tradition_mastery_gains: self.tradition_mastery_gains.duplicate(),
            governor_relationship_changes: self.governor_relationship_changes.duplicate(),
            bitcoin_rewards: self.bitcoin_rewards,
            sacred_items: strutil::clone_string_vec(&self.sacred_items),
            hypertoken_rewards: strutil::clone_string_vec(&self.hypertoken_rewards),
            aethyr_access_gained: strutil::clone_u32_vec(&self.aethyr_access_gained),
        }
    }
}

/// An immutable quest record; registration is write-once per id.
pub struct QuestData {
    /// The quest's unique identifier.
    pub quest_id: String,
    /// Quest title.
    pub title: String,
    /// Quest description.
    pub description: String,
    /// Quest objectives.
    pub objectives: Vec<String>,
    /// The wisdom the quest teaches.
    pub wisdom_taught: String,
    /// Ordered choice branches.
    pub choice_branches: Vec<QuestChoice>,
    /// Authenticity score, in thousandths.
    pub authenticity_score: i64,
    /// Estimated duration in minutes.
    pub estimated_duration: u32,
    /// Traditions the quest integrates.
    pub tradition_integration: Vec<String>,
    /// The associated governor.
    pub governor_name: String,
    /// Difficulty level in `[1, 10]`.
    pub difficulty_level: u32,
    /// Energy required to start, in `[0, MAX_ENERGY]`.
    pub required_energy: u32,
    /// The reward bundle applied on completion.
    pub rewards: QuestRewards,
    /// Creation stamp.
    pub created_at: String,
}

impl Keyed for QuestData {
    open spec fn key(self) -> Seq<char> {
        self.quest_id@
    }
}

impl QuestData {
    /// The record's tables are well formed.
    pub open spec fn wf(self) -> bool {
        self.rewards.wf()
    }
}

/// The registration gate: a quest is accepted only when its authenticity
/// meets the threshold, its difficulty lies in `[1, 10]`, and it requires no
/// more energy than a player can hold.
pub open spec fn spec_quest_admissible(config: SystemConfig, q: QuestData) -> bool {
    &&& q.authenticity_score >= config.authenticity_threshold
    &&& 1 <= q.difficulty_level <= 10
    &&& q.required_energy <= constants::MAX_ENERGY
}

/// A version bump: one more, saturating at the counter's maximum.
pub open spec fn bump_version(v: int) -> int {
    if v < u64::MAX {
        v + 1
    } else {
        v
    }
}

/// A balance credit, saturating at the counter's maximum.
pub open spec fn sat_add_u64(a: int, b: int) -> int {
    scores::sat_add_u64(a, b)
}

/// The deterministic reward fold of one bundle over one player model:
/// reputation adds unbounded, mastery clamps into `[0, 1]`, relationships
/// clamp into `[-1, 1]`, the balance credits the reward currency, and
/// items, tokens and tiers join without duplicates.
pub open spec fn spec_apply_rewards(m: GameStateModel, rw: RewardsModel) -> GameStateModel {
    GameStateModel {
        reputation_scores: scores::merge_clamped(
            m.reputation_scores,
            rw.reputation_changes,
            i64::MIN as int,
            i64::MAX as int,
        ),
        tradition_mastery: scores::merge_clamped(
            m.tradition_mastery,
            rw.tradition_mastery_gains,
            0,
            1000,
        ),
        governor_relationships: scores::merge_clamped(
            m.governor_relationships,
            rw.governor_relationship_changes,
            -1000,
            1000,
        ),
        balance_sats: sat_add_u64(m.balance_sats, rw.bitcoin_rewards),
        sacred_items: strutil::grant_all(m.sacred_items, rw.sacred_items),
        owned_hypertokens: strutil::grant_all(m.owned_hypertokens, rw.hypertoken_rewards),
        aethyr_access: strutil::grant_all_u32(m.aethyr_access, rw.aethyr_access_gained),
        ..m
    }
}

/// A player model after starting a quest: the quest joins the active set,
/// its energy requirement is deducted, and the version grows by one.
pub open spec fn spec_after_start(p: GameStateModel, qid: Seq<char>, required: int) -> GameStateModel {
    GameStateModel {
        active_quests: p.active_quests.push(qid),
        energy_level: p.energy_level - required,
        version: bump_version(p.version),
        ..p
    }
}

/// A player model after completing a quest: the quest moves from the active
/// to the completed set, the reward fold applies, and the version grows by
/// one.
pub open spec fn spec_after_complete(p: GameStateModel, qid: Seq<char>, rw: RewardsModel) -> GameStateModel {
    let moved = GameStateModel {
        active_quests: p.active_quests.remove_value(qid),
        completed_quests: p.completed_quests.push(qid),
        ..p
    };
    GameStateModel { version: bump_version(p.version), ..spec_apply_rewards(moved, rw) }
}

/// The canonical store: configuration, player states and the quest registry.
pub struct EnochianCore {
    /// Process-wide configuration, read-only after construction.
    pub config: SystemConfig,
    /// One canonical state per player, keyed by player id.
    pub game_states: Vec<GameState>,
    /// Registered quests, keyed by quest id, write-once per id.
    pub quest_registry: Vec<QuestData>,
    /// Whether `initialize` has validated the configuration.
    pub initialized: bool,
}

impl EnochianCore {
    /// A player with this id exists.
    pub open spec fn has_player(self, pid: Seq<char>) -> bool {
        store::has_key(self.game_states@, pid)
    }

    /// The state of the player with this id.
    pub open spec fn player(self, pid: Seq<char>) -> GameState {
        store::entry_of(self.game_states@, pid)
    }

    /// The model of the player with this id.
    pub open spec fn player_model(self, pid: Seq<char>) -> GameStateModel {
        self.player(pid)@
    }

    /// A quest with this id is registered.
    pub open spec fn has_quest(self, qid: Seq<char>) -> bool {
        store::has_key(self.quest_registry@, qid)
    }

    /// The registered quest with this id.
    pub open spec fn quest(self, qid: Seq<char>) -> QuestData {
        store::entry_of(self.quest_registry@, qid)
    }

    /// Store-wide invariants: unique keys, well-formed states, and only
    /// admissible quests in the registry.
    pub open spec fn wf(self) -> bool {
        &&& self.config.wf()
        &&& store::keys_unique(self.game_states@)
        &&& forall|i: int|
            0 <= i < self.game_states@.len() ==> (#[trigger] self.game_states@[i]).wf()
        &&& store::keys_unique(self.quest_registry@)
        &&& forall|i: int|
            0 <= i < self.quest_registry@.len() ==> (#[trigger] self.quest_registry@[i]).wf()
                && spec_quest_admissible(self.config, self.quest_registry@[i])
    }

    /// Creates an empty store under the given configuration.
    pub fn new(config: SystemConfig) -> (r: EnochianCore)
        ensures
            r.config == config,
            r.game_states@ == Seq::<GameState>::empty(),
            r.quest_registry@ == Seq::<QuestData>::empty(),
            !r.initialized,
            config.wf() ==> r.wf(),
    {
        EnochianCore { config, game_states: Vec::new(), quest_registry: Vec::new(), initialized: false }
    }

    /// What `validate_config` rejects, in check order.
    pub open spec fn spec_config_check(c: SystemConfig) -> Option<EnochianError> {
        if !(800 <= c.authenticity_threshold <= 1000) {
            Some(EnochianError::SacredConstraintViolation)
        } else if c.max_concurrent_quests == 0 || c.max_concurrent_quests > 10 {
            Some(EnochianError::SacredConstraintViolation)
        } else if scores::get_or_zero(c.tradition_weighting@, "Enochian"@) < 500 {
            Some(EnochianError::SacredConstraintViolation)
        } else {
            None
        }
    }

    /// Checks the configuration: the authenticity threshold must lie in
    /// `[0.8, 1.0]`, the concurrency limit in `[1, 10]`, and the Enochian
    /// tradition must weigh at least one half.
    pub fn validate_config(&self) -> (r: Result<(), EnochianError>)
        requires
            self.config.wf(),
        ensures
            match r {
                Ok(()) => EnochianCore::spec_config_check(self.config) is None,
                Err(e) => EnochianCore::spec_config_check(self.config) == Some(e),
            },
    {
        if self.config.authenticity_threshold < 800 || self.config.authenticity_threshold > 1000 {
            return Err(EnochianError::SacredConstraintViolation);
        }
        if self.config.max_concurrent_quests == 0 || self.config.max_concurrent_quests > 10 {
            return Err(EnochianError::SacredConstraintViolation);
        }
        if self.config.tradition_weighting.get_milli("Enochian") < 500 {
            return Err(EnochianError::SacredConstraintViolation);
        }
        Ok(())
    }

    /// Validates the configuration and marks the store initialized.
    pub fn initialize(&mut self) -> (r: Result<(), EnochianError>)
        requires
            old(self).wf(),
        ensures
            final(self).wf(),
            final(self).config == old(self).config,
            final(self).game_states@ == old(self).game_states@,
            final(self).quest_registry@ == old(self).quest_registry@,
            match r {
                Ok(()) => EnochianCore::spec_config_check(old(self).config) is None
                    && final(self).initialized,
                Err(e) => EnochianCore::spec_config_check(old(self).config) == Some(e)
                    && final(self).initialized == old(self).initialized,
            },
    {
        let checked = self.validate_config();
        match checked {
            Ok(()) => {
                self.initialized = true;
                Ok(())
            },
            Err(e) => Err(e),
        }
    }

    /// The position of the player with this id, if any.
    fn find_player_index(&self, player_id: &str) -> (r: Option<usize>)
        ensures
            match r {
                Some(i) => i < self.game_states@.len()
                    && self.game_states@[i as int].player_id@ == player_id@,
                None => !self.has_player(player_id@),
            },
    {
        let mut i: usize = 0;
        while i < self.game_states.len()
            invariant
                i <= self.game_states@.len(),
                forall|j: int| 0 <= j < i ==> self.game_states@[j].player_id@ != player_id@,
            decreases self.game_states@.len() - i,
        {
            if strutil::str_eq(self.game_states[i].player_id.as_str(), player_id) {
                return Some(i);
            }
            i += 1;
        }
        proof {
            assert forall|j: int| 0 <= j < self.game_states@.len()
                    implies self.game_states@[j].key() != player_id@ by {}
        }
        None
    }

    /// The position of the quest with this id, if any.
    fn find_quest_index(&self, quest_id: &str) -> (r: Option<usize>)
        ensures
            match r {
                Some(i) => i < self.quest_registry@.len()
                    && self.quest_registry@[i as int].quest_id@ == quest_id@,
                None => !self.has_quest(quest_id@),
            },
    {
        let mut i: usize = 0;
        while i < self.quest_registry.len()
            invariant
                i <= self.quest_registry@.len(),
                forall|j: int| 0 <= j < i ==> self.quest_registry@[j].quest_id@ != quest_id@,
            decreases self.quest_registry@.len() - i,
        {
            if strutil::str_eq(self.quest_registry[i].quest_id.as_str(), quest_id) {
                return Some(i);
            }
            i += 1;
        }
        proof {
            assert forall|j: int| 0 <= j < self.quest_registry@.len()
                    implies self.quest_registry@[j].key() != quest_id@ by {}
        }
        None
    }

    /// Reads a player's canonical state.
    pub fn get_player_state(&self, player_id: &str) -> (r: Option<&GameState>)
        requires
            self.wf(),
        ensures
            match r {
                Some(g) => self.has_player(player_id@) && *g == self.player(player_id@),
                None => !self.has_player(player_id@),
            },
    {
        match self.find_player_index(player_id) {
            Some(i) => {
                proof {
                    store::lemma_at_index(self.game_states@, i as int);
                }
                Some(&self.game_states[i])
            },
            None => None,
        }
    }

    /// Reads a registered quest.
    pub fn get_quest(&self, quest_id: &str) -> (r: Option<&QuestData>)
        requires
            self.wf(),
        ensures
            match r {
                Some(q) => self.has_quest(quest_id@) && *q == self.quest(quest_id@),
                None => !self.has_quest(quest_id@),
            },
    {
        match self.find_quest_index(quest_id) {
            Some(i) => {
                proof {
                    store::lemma_at_index(self.quest_registry@, i as int);
                }
                Some(&self.quest_registry[i])
            },
            None => None,
        }
    }

    /// Creates the canonical state for a new player id.
    ///
    /// Fails when the id already exists; on success the fresh state has full
    /// energy, access to the first Aethyr, the seed Enochian mastery, and
    /// version 1, and no other player's state changes.
    pub fn create_player_state(&mut self, player_id: String) -> (r: Result<
        &GameState,
        EnochianError,
    >)
        requires
            old(self).wf(),
        ensures
            final(self).wf(),
            final(self).config == old(self).config,
            final(self).quest_registry@ == old(self).quest_registry@,
            final(self).initialized == old(self).initialized,
            match r {
                Ok(g) => !old(self).has_player(player_id@) && final(self).has_player(player_id@)
                    && *g == final(self).player(player_id@)
                    && is_initial_player_model(final(self).player_model(player_id@), player_id@)
                    && final(self).game_states@.len() == old(self).game_states@.len() + 1
                    && (forall|p: Seq<char>|
                        p != player_id@
                            ==> #[trigger] final(self).has_player(p) == old(self).has_player(p))
                    && (forall|p: Seq<char>|
                        p != player_id@ && old(self).has_player(p)
                            ==> #[trigger] final(self).player(p) == old(self).player(p)),
                Err(e) => e == EnochianError::PlayerAlreadyExists
                    && old(self).has_player(player_id@)
                    && *final(self) == *old(self),
            },
    {
        if self.find_player_index(player_id.as_str()).is_some() {
            return Err(EnochianError::PlayerAlreadyExists);
        }
        let ghost pid = player_id@;
        let mut mastery: ScoreMap = AssocMap::new();
        mastery.insert("Enochian", 100);
        let mut aethyr: Vec<u32> = Vec::new();
        aethyr.push(1);
        let gs = GameState {
            player_id,
            block_height: 0,
            completed_quests: Vec::new(),
            active_quests: Vec::new(),
            tradition_mastery: mastery,
            governor_relationships: AssocMap::new(),
            reputation_scores: AssocMap::new(),
            owned_hypertokens: Vec::new(),
            sacred_items: Vec::new(),
            energy_level: constants::MAX_ENERGY,
            aethyr_access: aethyr,
            balance_sats: 0,
            staked_amount: 0,
            pending_rewards: 0,
            authenticity_score: 850,
            last_update: clock::now_rfc3339(),
            version: 1,
        };
        proof {
            assert(gs.wf()) by {
                assert(gs.completed_quests.deep_view() =~= Seq::<Seq<char>>::empty());
                assert(gs.active_quests.deep_view() =~= Seq::<Seq<char>>::empty());
                assert(gs.owned_hypertokens.deep_view() =~= Seq::<Seq<char>>::empty());
                assert(gs.sacred_items.deep_view() =~= Seq::<Seq<char>>::empty());
            }
            assert(is_initial_player_model(gs@, pid)) by {
                assert(gs.completed_quests.deep_view() =~= Seq::<Seq<char>>::empty());
                assert(gs.active_quests.deep_view() =~= Seq::<Seq<char>>::empty());
                assert(gs.owned_hypertokens.deep_view() =~= Seq::<Seq<char>>::empty());
                assert(gs.sacred_items.deep_view() =~= Seq::<Seq<char>>::empty());
                assert(gs.aethyr_access@ =~= seq![1u32]);
            }
            store::lemma_push_fresh(self.game_states@, gs);
        }
        self.game_states.push(gs);
        proof {
            store::lemma_at_index(self.game_states@, self.game_states@.len() - 1);
        }
        let n = self.game_states.len();
        Ok(&self.game_states[n - 1])
    }

    /// What the quest gate rejects, in check order: authenticity below the
    /// threshold, difficulty outside `[1, 10]`, or an energy requirement
    /// above the player maximum.
    pub open spec fn spec_quest_check(c: SystemConfig, q: QuestData) -> Option<EnochianError> {
        if q.authenticity_score < c.authenticity_threshold {
            Some(EnochianError::AuthenticityBelowThreshold)
        } else if q.difficulty_level == 0 || q.difficulty_level > 10 {
            Some(EnochianError::InvalidDifficulty)
        } else if q.required_energy > constants::MAX_ENERGY {
            Some(EnochianError::EnergyRequirementTooHigh)
        } else {
            None
        }
    }

    /// Checks a quest against the registration gate.
    fn validate_quest(&self, quest: &QuestData) -> (r: Result<(), EnochianError>)
        ensures
            match r {
                Ok(()) => EnochianCore::spec_quest_check(self.config, *quest) is None
                    && spec_quest_admissible(self.config, *quest),
                Err(e) => EnochianCore::spec_quest_check(self.config, *quest) == Some(e),
            },
    {
        if quest.authenticity_score < self.config.authenticity_threshold {
            return Err(EnochianError::AuthenticityBelowThreshold);
        }
        if quest.difficulty_level == 0 || quest.difficulty_level > 10 {
            return Err(EnochianError::InvalidDifficulty);
        }
        if quest.required_energy > constants::MAX_ENERGY {
            return Err(EnochianError::EnergyRequirementTooHigh);
        }
        Ok(())
    }

    /// What `register_quest` rejects: the quest gate's verdict, then a
    /// write-once check on the id.
    pub open spec fn spec_register_check(self, q: QuestData) -> Option<EnochianError> {
        match EnochianCore::spec_quest_check(self.config, q) {
            Some(e) => Some(e),
            None => if self.has_quest(q.quest_id@) {
                Some(EnochianError::QuestAlreadyExists)
            } else {
                None
            },
        }
    }

    /// Registers a quest; insertion is write-once per id.
    ///
    /// The quest is rejected exactly when its authenticity score is below
    /// the configured threshold, its difficulty lies outside `[1, 10]`, its
    /// required energy exceeds the player maximum, or its id is taken.
    pub fn register_quest(&mut self, quest: QuestData) -> (r: Result<(), EnochianError>)
        requires
            old(self).wf(),
            quest.wf(),
        ensures
            final(self).wf(),
            final(self).config == old(self).config,
            final(self).game_states@ == old(self).game_states@,
            final(self).initialized == old(self).initialized,
            match r {
                Ok(()) => old(self).spec_register_check(quest) is None
                    && final(self).quest_registry@ == old(self).quest_registry@.push(quest)
                    && final(self).has_quest(quest.quest_id@)
                    && final(self).quest(quest.quest_id@) == quest
                    && (forall|q: Seq<char>|
                        q != quest.quest_id@
                            ==> #[trigger] final(self).has_quest(q) == old(self).has_quest(q))
                    && (forall|q: Seq<char>|
                        q != quest.quest_id@ && old(self).has_quest(q)
                            ==> #[trigger] final(self).quest(q) == old(self).quest(q)),
                Err(e) => old(self).spec_register_check(quest) == Some(e)
                    && *final(self) == *old(self),
            },
    {
        match self.validate_quest(&quest) {
            Err(e) => {
                return Err(e);
            },
            Ok(()) => {},
        }
        if self.find_quest_index(quest.quest_id.as_str()).is_some() {
            return Err(EnochianError::QuestAlreadyExists);
        }
        proof {
            store::lemma_push_fresh(self.quest_registry@, quest);
        }
        self.quest_registry.push(quest);
        Ok(())
    }

    /// What the start gate rejects, in check order: too little energy, a
    /// full active set, or a quest already completed or already active.
    pub open spec fn spec_start_gate(c: SystemConfig, p: GameStateModel, q: QuestData) -> Option<
        EnochianError,
    > {
        if p.energy_level < q.required_energy {
            Some(EnochianError::InsufficientEnergy)
        } else if p.active_quests.len() >= c.max_concurrent_quests {
            Some(EnochianError::ConcurrencyLimitReached)
        } else if p.completed_quests.contains(q.quest_id@) {
            Some(EnochianError::QuestAlreadyCompleted)
        } else if p.active_quests.contains(q.quest_id@) {
            Some(EnochianError::QuestAlreadyActive)
        } else {
            None
        }
    }

    /// Checks whether a player may start a quest.
    fn validate_quest_start(&self, player: &GameState, quest: &QuestData) -> (r: Result<
        (),
        EnochianError,
    >)
        ensures
            match r {
                Ok(()) => EnochianCore::spec_start_gate(self.config, player@, *quest) is None,
                Err(e) => EnochianCore::spec_start_gate(self.config, player@, *quest) == Some(e),
            },
    {
        if player.energy_level < quest.required_energy {
            return Err(EnochianError::InsufficientEnergy);
        }
        if player.active_quests.len() >= self.config.max_concurrent_quests as usize {
            return Err(EnochianError::ConcurrencyLimitReached);
        }
        if strutil::contains_string(&player.completed_quests, quest.quest_id.as_str()) {
            return Err(EnochianError::QuestAlreadyCompleted);
        }
        if strutil::contains_string(&player.active_quests, quest.quest_id.as_str()) {
            return Err(EnochianError::QuestAlreadyActive);
        }
        Ok(())
    }

    /// What `start_quest` rejects, in check order: an unknown player or
    /// quest, then the start gate's verdict.
    pub open spec fn spec_start_check(self, pid: Seq<char>, qid: Seq<char>) -> Option<
        EnochianError,
    > {
        if !self.has_player(pid) {
            Some(EnochianError::PlayerNotFound)
        } else if !self.has_quest(qid) {
            Some(EnochianError::QuestNotFound)
        } else {
            EnochianCore::spec_start_gate(self.config, self.player_model(pid), self.quest(qid))
        }
    }

    /// Starts a registered quest for a player.
    ///
    /// On success the quest joins the active set, the required energy is
    /// deducted, and the version counter grows by one; no other player's
    /// state changes.
    pub fn start_quest(&mut self, player_id: &str, quest_id: &str) -> (r: Result<
        (),
        EnochianError,
    >)
        requires
            old(self).wf(),
        ensures
            final(self).wf(),
            final(self).config == old(self).config,
            final(self).quest_registry@ == old(self).quest_registry@,
            final(self).initialized == old(self).initialized,
            match r {
                Ok(()) => old(self).spec_start_check(player_id@, quest_id@) is None
                    && final(self).has_player(player_id@)
                    && final(self).player_model(player_id@) == spec_after_start(
                        old(self).player_model(player_id@),
                        quest_id@,
                        old(self).quest(quest_id@).required_energy as int,
                    )
                    && final(self).game_states@.len() == old(self).game_states@.len()
                    && (forall|p: Seq<char>|
                        p != player_id@
                            ==> #[trigger] final(self).has_player(p) == old(self).has_player(p))
                    && (forall|p: Seq<char>|
                        p != player_id@ && old(self).has_player(p)
                            ==> #[trigger] final(self).player(p) == old(self).player(p)),
                Err(e) => old(self).spec_start_check(player_id@, quest_id@) == Some(e)
                    && *final(self) == *old(self),
            },
    {
        let pidx = match self.find_player_index(player_id) {
            Some(i) => i,
            None => {
                return Err(EnochianError::PlayerNotFound);
            },
        };
        let qidx = match self.find_quest_index(quest_id) {
            Some(i) => i,
            None => {
                return Err(EnochianError::QuestNotFound);
            },
        };
        proof {
            store::lemma_at_index(self.game_states@, pidx as int);
            store::lemma_at_index(self.quest_registry@, qidx as int);
        }
        let required = self.quest_registry[qidx].required_energy;
        match self.validate_quest_start(&self.game_states[pidx], &self.quest_registry[qidx]) {
            Err(e) => {
                return Err(e);
            },
            Ok(()) => {},
        }
        let ghost p0 = self.game_states@[pidx as int]@;
        let mut st = self.game_states.remove(pidx);
        st.active_quests.push(quest_id.to_owned());
        st.energy_level = st.energy_level - required;
        st.version = st.version.saturating_add(1);
        st.last_update = clock::now_rfc3339();
        proof {
            assert(st.active_quests.deep_view() =~= p0.active_quests.push(quest_id@));
            assert(st@ =~= spec_after_start(p0, quest_id@, required as int));
            assert(st.wf()) by {
                assert forall|a: int, b: int|
                    0 <= a < b < st.active_quests.deep_view().len()
                        implies st.active_quests.deep_view()[a]
                        != st.active_quests.deep_view()[b] by {
                    if b == p0.active_quests.len() {
                        if p0.active_quests[a] == quest_id@ {
                            assert(p0.active_quests.contains(quest_id@));
                        }
                    }
                }
                assert forall|a: int, b: int|
                    0 <= a < st.active_quests.deep_view().len() && 0 <= b
                        < st.completed_quests.deep_view().len()
                        implies st.active_quests.deep_view()[a]
                        != st.completed_quests.deep_view()[b] by {
                    if a == p0.active_quests.len() {
                        if p0.completed_quests[b] == quest_id@ {
                            assert(p0.completed_quests.contains(quest_id@));
                        }
                    }
                }
            }
        }
        let ghost newst = st;
        self.game_states.insert(pidx, st);
        proof {
            assert(self.game_states@ =~= old(self).game_states@.update(pidx as int, newst));
            store::lemma_update_same_key(old(self).game_states@, pidx as int, newst);
        }
        Ok(())
    }

    /// Applies one reward bundle to one player state, as the deterministic
    /// fold of `spec_apply_rewards`.
    fn apply_quest_rewards(&self, state: &mut GameState, rewards: &QuestRewards)
        requires
            old(state).wf(),
            rewards.wf(),
        ensures
            final(state).wf(),
            final(state)@ == spec_apply_rewards(old(state)@, rewards@),
            final(state).player_id == old(state).player_id,
    {
        state.reputation_scores.apply_deltas(&rewards.reputation_changes, i64::MIN, i64::MAX);
        state.tradition_mastery.apply_deltas(&rewards.tradition_mastery_gains, 0, 1000);
        state.governor_relationships.apply_deltas(
            &rewards.governor_relationship_changes,
            -1000,
            1000,
        );
        state.balance_sats = state.balance_sats.saturating_add(rewards.bitcoin_rewards);
        strutil::grant_strings(&mut state.sacred_items, &rewards.sacred_items);
        strutil::grant_strings(&mut state.owned_hypertokens, &rewards.hypertoken_rewards);
        strutil::grant_u32s(&mut state.aethyr_access, &rewards.aethyr_access_gained);
        proof {
            scores::lemma_merge_keeps_range(
                old(state)@.tradition_mastery,
                rewards@.tradition_mastery_gains,
                0,
                1000,
            );
            scores::lemma_merge_keeps_range(
                old(state)@.governor_relationships,
                rewards@.governor_relationship_changes,
                -1000,
                1000,
            );
            assert(final(state)@ =~= spec_apply_rewards(old(state)@, rewards@));
        }
    }

    /// What `complete_quest` rejects, in check order: an unknown player or
    /// quest, or a quest that is not in the player's active set.
    pub open spec fn spec_complete_check(self, pid: Seq<char>, qid: Seq<char>) -> Option<
        EnochianError,
    > {
        if !self.has_player(pid) {
            Some(EnochianError::PlayerNotFound)
        } else if !self.has_quest(qid) {
            Some(EnochianError::QuestNotFound)
        } else if !self.player_model(pid).active_quests.contains(qid) {
            Some(EnochianError::QuestNotActive)
        } else {
            None
        }
    }

    /// Completes an active quest for a player and returns the applied
    /// reward bundle.
    ///
    /// On success the quest moves from the active to the completed set, the
    /// reward fold applies, and the version counter grows by one; no other
    /// player's state changes.
    pub fn complete_quest(&mut self, player_id: &str, quest_id: &str) -> (r: Result<
        QuestRewards,
        EnochianError,
    >)
        requires
            old(self).wf(),
        ensures
            final(self).wf(),
            final(self).config == old(self).config,
            final(self).quest_registry@ == old(self).quest_registry@,
            final(self).initialized == old(self).initialized,
            match r {
                Ok(rw) => old(self).spec_complete_check(player_id@, quest_id@) is None
                    && rw@ == old(self).quest(quest_id@).rewards@
                    && final(self).has_player(player_id@)
                    && final(self).player_model(player_id@) == spec_after_complete(
                        old(self).player_model(player_id@),
                        quest_id@,
                        old(self).quest(quest_id@).rewards@,
                    )
                    && final(self).game_states@.len() == old(self).game_states@.len()
                    && (forall|p: Seq<char>|
                        p != player_id@
                            ==> #[trigger] final(self).has_player(p) == old(self).has_player(p))
                    && (forall|p: Seq<char>|
                        p != player_id@ && old(self).has_player(p)
                            ==> #[trigger] final(self).player(p) == old(self).player(p)),
                Err(e) => old(self).spec_complete_check(player_id@, quest_id@) == Some(e)
                    && *final(self) == *old(self),
            },
    {
        let pidx = match self.find_player_index(player_id) {
            Some(i) => i,
            None => {
                return Err(EnochianError::PlayerNotFound);
            },
        };
        let qidx = match self.find_quest_index(quest_id) {
            Some(i) => i,
            None => {
                return Err(EnochianError::QuestNotFound);
            },
        };
        proof {
            store::lemma_at_index(self.game_states@, pidx as int);
            store::lemma_at_index(self.quest_registry@, qidx as int);
        }
        if !strutil::contains_string(&self.game_states[pidx].active_quests, quest_id) {
            return Err(EnochianError::QuestNotActive);
        }
        let ghost p0 = self.game_states@[pidx as int]@;
        let mut st = self.game_states.remove(pidx);
        strutil::remove_first_string(&mut st.active_quests, quest_id);
        st.completed_quests.push(quest_id.to_owned());
        proof {
            let adv = p0.active_quests;
            adv.index_of_first_ensures(quest_id@);
            let fi = adv.index_of_first(quest_id@).unwrap();
            strutil::lemma_remove_index_props(adv, fi);
            assert(st.completed_quests.deep_view() =~= p0.completed_quests.push(quest_id@));
            assert forall|b: int|
                0 <= b < p0.completed_quests.len()
                    implies p0.completed_quests[b] != quest_id@ by {
                assert(adv[fi] != p0.completed_quests[b]);
            }
            assert(st.wf()) by {
                let adv2 = st.active_quests.deep_view();
                let cdv2 = st.completed_quests.deep_view();
                assert forall|a: int, b: int| 0 <= a < b < cdv2.len()
                        implies cdv2[a] != cdv2[b] by {
                    if b == p0.completed_quests.len() {
                        assert(p0.completed_quests[a] != quest_id@);
                    }
                }
                assert forall|a: int, b: int|
                    0 <= a < adv2.len() && 0 <= b < cdv2.len() implies adv2[a] != cdv2[b] by {
                    assert(adv2.contains(adv2[a]));
                    assert(adv.contains(adv2[a]));
                    let k = choose|k: int| 0 <= k < adv.len() && adv[k] == adv2[a];
                    if b == p0.completed_quests.len() {
                        assert(!adv2.contains(quest_id@));
                    } else {
                        assert(adv[k] != p0.completed_quests[b]);
                    }
                }
            }
        }
        self.apply_quest_rewards(&mut st, &self.quest_registry[qidx].rewards);
        st.version = st.version.saturating_add(1);
        st.last_update = clock::now_rfc3339();
        proof {
            assert(st@ =~= spec_after_complete(
                p0,
                quest_id@,
                self.quest_registry@[qidx as int].rewards@,
            ));
        }
        let ghost newst = st;
        self.game_states.insert(pidx, st);
        proof {
            assert(self.game_states@ =~= old(self).game_states@.update(pidx as int, newst));
            store::lemma_update_same_key(old(self).game_states@, pidx as int, newst);
        }
        let rewards_out = self.quest_registry[qidx].rewards.duplicate();
        Ok(rewards_out)
    }

    /// Checks a replacement state against the lifecycle invariants.
    pub fn validate_state_update(&self, state: &GameState) -> (r: Result<(), EnochianError>)
        ensures
            match r {
                Ok(()) => state.wf(),
                Err(e) => e == EnochianError::InvariantViolation && !state.wf(),
            },
    {
        if state.check_wf() {
            Ok(())
        } else {
            Err(EnochianError::InvariantViolation)
        }
    }

    /// What `update_player_state` rejects, in check order: an unknown
    /// player, a state carrying another player's id, or a state that
    /// breaks a lifecycle invariant.
    pub open spec fn spec_update_check(self, pid: Seq<char>, st: GameState) -> Option<
        EnochianError,
    > {
        if !self.has_player(pid) {
            Some(EnochianError::PlayerNotFound)
        } else if st.player_id@ != pid {
            Some(EnochianError::InvariantViolation)
        } else if !st.wf() {
            Some(EnochianError::InvariantViolation)
        } else {
            None
        }
    }

    /// Replaces a player's canonical state with a validated one.
    pub fn update_player_state(&mut self, player_id: &str, state: GameState) -> (r: Result<
        (),
        EnochianError,
    >)
        requires
            old(self).wf(),
        ensures
            final(self).wf(),
            final(self).config == old(self).config,
            final(self).quest_registry@ == old(self).quest_registry@,
            final(self).initialized == old(self).initialized,
            match r {
                Ok(()) => old(self).spec_update_check(player_id@, state) is None
                    && final(self).has_player(player_id@)
                    && final(self).player(player_id@) == state
                    && final(self).game_states@.len() == old(self).game_states@.len()
                    && (forall|p: Seq<char>|
                        p != player_id@
                            ==> #[trigger] final(self).has_player(p) == old(self).has_player(p))
                    && (forall|p: Seq<char>|
                        p != player_id@ && old(self).has_player(p)
                            ==> #[trigger] final(self).player(p) == old(self).player(p)),
                Err(e) => old(self).spec_update_check(player_id@, state) == Some(e)
                    && *final(self) == *old(self),
            },
    {
        let pidx = match self.find_player_index(player_id) {
            Some(i) => i,
            None => {
                return Err(EnochianError::PlayerNotFound);
            },
        };
        proof {
            store::lemma_at_index(self.game_states@, pidx as int);
        }
        if !strutil::str_eq(state.player_id.as_str(), player_id) {
            return Err(EnochianError::InvariantViolation);
        }
        match self.validate_state_update(&state) {
            Err(e) => {
                return Err(e);
            },
            Ok(()) => {},
        }
        let ghost newst = state;
        let _replaced = self.game_states.remove(pidx);
        self.game_states.insert(pidx, state);
        proof {
            assert(self.game_states@ =~= old(self).game_states@.update(pidx as int, newst));
            store::lemma_update_same_key(old(self).game_states@, pidx as int, newst);
        }
        Ok(())
    }
}

/// Energy safety: a well-formed player state holds its energy in
/// `[0, MAX_ENERGY]`. Every mutating operation of the store requires and
/// returns a well-formed store, so energy stays bounded over any sequence
/// of quest starts and reward applications.
pub proof fn lemma_energy_bounded(g: GameState)
    requires
        g.wf(),
    ensures
        0 <= g@.energy_level <= constants::MAX_ENERGY,
{
}

/// Quest set safety: a well-formed player state keeps its active and
/// completed quest sets duplicate-free and disjoint. Every mutating
/// operation of the store requires and returns a well-formed store, so
/// the sets stay disjoint over any sequence of starts and completions.
pub proof fn lemma_quest_sets_disjoint(g: GameState)
    requires
        g.wf(),
    ensures
        strutil::seqs_disjoint(g@.active_quests, g@.completed_quests),
        strutil::no_dups(g@.active_quests),
        strutil::no_dups(g@.completed_quests),
{
}

/// Applying a reward bundle's item, token and tier grants twice leaves
/// the same sets as applying them once: grants are idempotent unions.
pub proof fn lemma_reward_grants_idempotent(m: GameStateModel, rw: RewardsModel)
    ensures
        spec_apply_rewards(spec_apply_rewards(m, rw), rw).sacred_items == spec_apply_rewards(
            m,
            rw,
        ).sacred_items,
        spec_apply_rewards(spec_apply_rewards(m, rw), rw).owned_hypertokens == spec_apply_rewards(
            m,
            rw,
        ).owned_hypertokens,
        spec_apply_rewards(spec_apply_rewards(m, rw), rw).aethyr_access == spec_apply_rewards(
            m,
            rw,
        ).aethyr_access,
{
    strutil::lemma_grant_all_idempotent(m.sacred_items, rw.sacred_items);
    strutil::lemma_grant_all_idempotent(m.owned_hypertokens, rw.hypertoken_rewards);
    strutil::lemma_grant_all_u32_idempotent(m.aethyr_access, rw.aethyr_access_gained);
}

/// Version progress: below the counter's maximum, a successful mutating
/// call moves the version up by exactly one.
pub proof fn lemma_version_increments(v: int)
    requires
        1 <= v < u64::MAX,
    ensures
        bump_version(v) == v + 1,
{
}

/// Count of active quests over all players, saturating.
pub open spec fn sum_active(s: Seq<GameState>) -> int
    decreases s.len(),
{
    if s.len() == 0 {
        0
    } else {
        sat_add_u64(sum_active(s.drop_last()), s.last().active_quests@.len() as int)
    }
}

/// Count of completed quests over all players, saturating.
pub open spec fn sum_completed(s: Seq<GameState>) -> int
    decreases s.len(),
{
    if s.len() == 0 {
        0
    } else {
        sat_add_u64(sum_completed(s.drop_last()), s.last().completed_quests@.len() as int)
    }
}

/// Count of owned hypertokens over all players, saturating.
pub open spec fn sum_hypertokens(s: Seq<GameState>) -> int
    decreases s.len(),
{
    if s.len() == 0 {
        0
    } else {
        sat_add_u64(sum_hypertokens(s.drop_last()), s.last().owned_hypertokens@.len() as int)
    }
}

/// Total authenticity over all players in thousandths, saturating.
pub open spec fn sum_authenticity(s: Seq<GameState>) -> int
    decreases s.len(),
{
    if s.len() == 0 {
        0
    } else {
        scores::clamp_int(
            sum_authenticity(s.drop_last()) + s.last().authenticity_score,
            i64::MIN as int,
            i64::MAX as int,
        )
    }
}

/// Aggregate counters over the whole store.
#[derive(Clone, Copy, Debug, PartialEq, Eq, Structural)]
pub struct SystemStatistics {
    /// Number of players.
    pub total_players: usize,
    /// Number of registered quests.
    pub total_quests: usize,
    /// Active quests over all players.
    pub active_quests: u64,
    /// Completed quests over all players.
    pub completed_quests: u64,
    /// Owned hypertokens over all players.
    pub total_hypertokens: u64,
    /// Total authenticity over all players, in thousandths.
    pub total_authenticity_milli: i64,
}

impl EnochianCore {
    /// Aggregates the store's counters in one pass over the players.
    #[verifier::loop_isolation(false)]
    pub fn get_statistics(&self) -> (r: SystemStatistics)
        ensures
            r.total_players == self.game_states@.len(),
            r.total_quests == self.quest_registry@.len(),
            r.active_quests == sum_active(self.game_states@),
            r.completed_quests == sum_completed(self.game_states@),
            r.total_hypertokens == sum_hypertokens(self.game_states@),
            r.total_authenticity_milli == sum_authenticity(self.game_states@),
    {
        let ghost all = self.game_states@;
        let mut active: u64 = 0;
        let mut completed: u64 = 0;
        let mut tokens: u64 = 0;
        let mut authenticity: i64 = 0;
        let n = self.game_states.len();
        let mut i: usize = 0;
        proof {
            assert(all.subrange(0, 0) =~= Seq::<GameState>::empty());
        }
        while i < n
            invariant
                i <= n,
                active == sum_active(all.subrange(0, i as int)),
                completed == sum_completed(all.subrange(0, i as int)),
                tokens == sum_hypertokens(all.subrange(0, i as int)),
                authenticity == sum_authenticity(all.subrange(0, i as int)),
            decreases n - i,
        {
            proof {
                assert(all.subrange(0, i + 1).drop_last() =~= all.subrange(0, i as int));
                assert(all.subrange(0, i + 1).last() == all[i as int]);
            }
            active = active.saturating_add(self.game_states[i].active_quests.len() as u64);
            completed = completed.saturating_add(
                self.game_states[i].completed_quests.len() as u64,
            );
            tokens = tokens.saturating_add(self.game_states[i].owned_hypertokens.len() as u64);
            authenticity = scores::clamped_add(
                authenticity,
                self.game_states[i].authenticity_score,
                i64::MIN,
                i64::MAX,
            );
            i += 1;
        }
        proof {
            assert(all.subrange(0, n as int) =~= all);
        }
        SystemStatistics {
            total_players: n,
            total_quests: self.quest_registry.len(),
            active_quests: active,
            completed_quests: completed,
            total_hypertokens: tokens,
            total_authenticity_milli: authenticity,
        }
    }
}

} // verus!
