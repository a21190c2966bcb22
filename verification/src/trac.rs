//! The state transition log.
//!
//! A player's story progression is a chain of hashed states connected by
//! signed transitions. A proposed transition carries the deterministic
//! consequences of its action; validators attest to it, and once the number
//! of signatures reaches the quorum derived from the consensus threshold,
//! the transition finalizes: it leaves the pending collection exactly once,
//! its consequences apply to the canonical state, and the new state joins
//! the append-only history.

use vstd::prelude::*;
use crate::assoc::AssocMap;
use crate::constants;
use crate::scores;
use crate::scores::ScoreMap;
use crate::strutil;
use crate::EnochianError;

verus! {

/// The kind of a player action.
#[derive(Clone, Copy, Debug, PartialEq, Eq, Structural)]
pub enum ActionType {
    /// Start a quest.
    StartQuest,
    /// Pick a choice branch.
    MakeChoice,
    /// Complete a quest.
    CompleteQuest,
    /// Interact with a governor.
    InteractWithGovernor,
    /// Use a sacred item.
    UseSacredItem,
    /// Perform a ritual.
    PerformRitual,
}

/// The kind of a consequence.
#[derive(Clone, Copy, Debug, PartialEq, Eq, Structural)]
pub enum ConsequenceType {
    /// Adds to a reputation category, unbounded.
    ReputationChange,
    /// Adds to a tradition's mastery, clamped into `[0, 1]`.
    TraditionMastery,
    /// Adds to a governor relationship, clamped into `[-1, 1]`.
    GovernorRelationship,
    /// Adds to the energy level, clamped into `[0, MAX_ENERGY]`.
    EnergyModification,
    /// Grants a sacred item, skipped when already owned.
    ItemGain,
    /// Informational only; the canonical state carries no field for it.
    ItemLoss,
    /// Unlocks an Aethyr tier named by a decimal target, skipped when
    /// already accessible.
    AethyrAccess,
    /// Informational only; an extension point of the state shape.
    WisdomUnlock,
    /// Informational only; an extension point of the state shape.
    SkillGain,
    /// Informational only; an extension point of the state shape.
    SacredKnowledge,
}

/// How long a consequence lasts.
#[derive(Clone, Copy, Debug, PartialEq, Eq, Structural)]
pub enum ConsequenceDuration {
    /// Lasts until revisited.
    Temporary,
    /// Lasts forever.
    Permanent,
    /// Lasts for the quest line.
    QuestLine,
    /// Lasts while its condition holds.
    Conditional,
}

/// The identity-relevant content of one consequence.
#[verifier::ext_equal]
pub struct ConsequenceModel {
    /// The consequence's kind.
    pub consequence_type: ConsequenceType,
    /// The name of the affected score, item or tier.
    pub target: Seq<char>,
    /// The delta: thousandths for score targets, whole points for energy.
    pub value_change: int,
    /// How long the consequence lasts.
    pub duration: ConsequenceDuration,
    /// The authenticity impact, in thousandths.
    pub authenticity_impact: int,
}

/// One typed state delta produced by evaluating an action.
///
/// `value_change` counts thousandths for score targets and whole energy
/// points for `EnergyModification`.
pub struct StateConsequence {
    /// The consequence's kind.
    pub consequence_type: ConsequenceType,
    /// The name of the affected score, item or tier.
    pub target: String,
    /// The delta: thousandths for score targets, whole points for energy.
    pub value_change: i64,
    /// How long the consequence lasts.
    pub duration: ConsequenceDuration,
    /// The authenticity impact, in thousandths.
    pub authenticity_impact: i64,
}

impl View for StateConsequence {
    type V = ConsequenceModel;

    open spec fn view(&self) -> ConsequenceModel {
        ConsequenceModel {
            consequence_type: self.consequence_type,
            target: self.target@,
            value_change: self.value_change as int,
            duration: self.duration,
            authenticity_impact: self.authenticity_impact as int,
        }
    }
}

/// The models of a consequence list, in order.
pub open spec fn conseq_models(s: Seq<StateConsequence>) -> Seq<ConsequenceModel> {
    Seq::new(s.len(), |i: int| s[i]@)
}

/// The identity-relevant content of a player action.
#[verifier::ext_equal]
pub struct ActionModel {
    /// The action's kind.
    pub action_type: ActionType,
    /// The quest the action concerns.
    pub quest_id: Seq<char>,
    /// The chosen branch, if any.
    pub choice_id: Option<Seq<char>>,
    /// Free-form parameters.
    pub parameters: Map<Seq<char>, Seq<char>>,
    /// The opaque authenticity proof token.
    pub authenticity_proof: Seq<char>,
}

/// A player action submitted to the transition log.
pub struct QuestAction {
    /// The action's kind.
    pub action_type: ActionType,
    /// The quest the action concerns.
    pub quest_id: String,
    /// The chosen branch, if any.
    pub choice_id: Option<String>,
    /// Free-form parameters.
    pub parameters: AssocMap<String>,
    /// The opaque authenticity proof token; real validation is external.
    pub authenticity_proof: String,
}

impl View for QuestAction {
    type V = ActionModel;

    open spec fn view(&self) -> ActionModel {
        ActionModel {
            action_type: self.action_type,
            quest_id: self.quest_id@,
            choice_id: match self.choice_id {
                Some(c) => Some(c@),
                None => None,
            },
            parameters: self.parameters@,
            authenticity_proof: self.authenticity_proof@,
        }
    }
}

impl QuestAction {
    /// The action's parameter table is well formed.
    pub open spec fn wf(self) -> bool {
        self.parameters.wf()
    }

    /// Copies the action; the copy carries the same content.
    pub fn duplicate(&self) -> (r: QuestAction)
        requires
            self.wf(),
        ensures
            r@ == self@,
            r.wf(),
    {
        QuestAction {
            action_type: self.action_type,
            quest_id: strutil::clone_string(&self.quest_id),
            choice_id: match &self.choice_id {
                Some(c) => Some(strutil::clone_string(c)),
                None => None,
            },
            parameters: self.parameters.duplicate(),
            authenticity_proof: strutil::clone_string(&self.authenticity_proof),
        }
    }
}

/// The identity-relevant fields a state hash is built from.
#[verifier::ext_equal]
pub struct HashModel {
    /// The state's player id.
    pub player_id: Seq<char>,
    /// The state's current quest id.
    pub quest_id: Seq<char>,
    /// The state's timestamp.
    pub timestamp: int,
    /// The number of completed quests.
    pub completed_count: int,
}

/// A state hash: a deterministic digest of the identity-relevant fields of
/// a story state. Two states with the same player id, quest id, timestamp
/// and completed-quest count hash alike; a difference in any of the four
/// changes the hash.
pub struct StateHash {
    /// The state's player id.
    pub player_id: String,
    /// The state's current quest id.
    pub quest_id: String,
    /// The state's timestamp.
    pub timestamp: u64,
    /// The number of completed quests.
    pub completed_count: u64,
}

impl View for StateHash {
    type V = HashModel;

    open spec fn view(&self) -> HashModel {
        HashModel {
            player_id: self.player_id@,
            quest_id: self.quest_id@,
            timestamp: self.timestamp as int,
            completed_count: self.completed_count as int,
        }
    }
}

impl StateHash {
    /// Copies the hash value.
    pub fn duplicate(&self) -> (r: StateHash)
        ensures
            r@ == self@,
    {
        StateHash {
            player_id: strutil::clone_string(&self.player_id),
            quest_id: strutil::clone_string(&self.quest_id),
            timestamp: self.timestamp,
            completed_count: self.completed_count,
        }
    }
}

/// The identity-relevant content of a story state.
#[verifier::ext_equal]
pub struct StoryModel {
    /// The player's identifier.
    pub player_id: Seq<char>,
    /// The quest the story currently follows.
    pub current_quest_id: Seq<char>,
    /// Completed quest ids.
    pub completed_quests: Seq<Seq<char>>,
    /// Active branch ids.
    pub active_branches: Seq<Seq<char>>,
    /// Relationship per governor, in thousandths.
    pub governor_relationships: Map<Seq<char>, i64>,
    /// Mastery per tradition, in thousandths.
    pub tradition_mastery: Map<Seq<char>, i64>,
    /// Reputation per category, in thousandths.
    pub reputation_scores: Map<Seq<char>, i64>,
    /// Energy in `[0, MAX_ENERGY]`.
    pub energy_level: int,
    /// Accessible Aethyr tiers.
    pub aethyr_access: Seq<u32>,
    /// Owned sacred items.
    pub sacred_items: Seq<Seq<char>>,
    /// The state's timestamp.
    pub timestamp: int,
    /// The digest of the identity-relevant fields.
    pub state_hash: HashModel,
}

/// A chain-tracked story state of one player.
pub struct StoryState {
    /// The player's identifier.
    pub player_id: String,
    /// The quest the story currently follows.
    pub current_quest_id: String,
    /// Completed quest ids.
    pub completed_quests: Vec<String>,
    /// Active branch ids.
    pub active_branches: Vec<String>,
    /// Relationship per governor, in thousandths.
    pub governor_relationships: ScoreMap,
    /// Mastery per tradition, in thousandths.
    pub tradition_mastery: ScoreMap,
    /// Reputation per category, in thousandths.
    pub reputation_scores: ScoreMap,
    /// Energy in `[0, MAX_ENERGY]`.
    pub energy_level: u32,
    /// Accessible Aethyr tiers.
    pub aethyr_access: Vec<u32>,
    /// Owned sacred items.
    pub sacred_items: Vec<String>,
    /// The state's timestamp.
    pub timestamp: u64,
    /// The digest of the identity-relevant fields.
    pub state_hash: StateHash,
}

impl View for StoryState {
    type V = StoryModel;

    open spec fn view(&self) -> StoryModel {
        StoryModel {
            player_id: self.player_id@,
            current_quest_id: self.current_quest_id@,
            completed_quests: self.completed_quests.deep_view(),
            active_branches: self.active_branches.deep_view(),
            governor_relationships: self.governor_relationships@,
            tradition_mastery: self.tradition_mastery@,
            reputation_scores: self.reputation_scores@,
            energy_level: self.energy_level as int,
            aethyr_access: self.aethyr_access@,
            sacred_items: self.sacred_items.deep_view(),
            timestamp: self.timestamp as int,
            state_hash: self.state_hash@,
        }
    }
}

/// The lifecycle invariants of a story model.
pub open spec fn story_model_wf(m: StoryModel) -> bool {
    &&& 0 <= m.energy_level <= constants::MAX_ENERGY
    &&& scores::unit_scores(m.tradition_mastery)
    &&& scores::signed_unit_scores(m.governor_relationships)
    &&& strutil::no_dups(m.sacred_items)
    &&& strutil::no_dups_u32(m.aethyr_access)
}

impl StoryState {
    /// The state's score tables are well formed and its model meets the
    /// lifecycle invariants.
    pub open spec fn wf(self) -> bool {
        &&& self.governor_relationships.wf()
        &&& self.tradition_mastery.wf()
        &&& self.reputation_scores.wf()
        &&& story_model_wf(self@)
    }

    /// Copies the state; the copy carries the same content.
    pub fn duplicate(&self) -> (r: StoryState)
        ensures
            r@ == self@,
            self.wf() ==> r.wf(),
    {
        StoryState {
            player_id: strutil::clone_string(&self.player_id),
            current_quest_id: strutil::clone_string(&self.current_quest_id),
            completed_quests: strutil::clone_string_vec(&self.completed_quests),
            active_branches: strutil::clone_string_vec(&self.active_branches),
            governor_relationships: self.governor_relationships.duplicate(),
            tradition_mastery: self.tradition_mastery.duplicate(),
            reputation_scores: self.reputation_scores.duplicate(),
            energy_level: self.energy_level,
            aethyr_access: strutil::clone_u32_vec(&self.aethyr_access),
            sacred_items: strutil::clone_string_vec(&self.sacred_items),
            timestamp: self.timestamp,
            state_hash: self.state_hash.duplicate(),
        }
    }

    /// Digests the state's identity-relevant fields.
    pub fn compute_hash(&self) -> (r: StateHash)
        ensures
            r@ == spec_hash_of(self@),
    {
        StateHash {
            player_id: strutil::clone_string(&self.player_id),
            quest_id: strutil::clone_string(&self.current_quest_id),
            timestamp: self.timestamp,
            completed_count: self.completed_quests.len() as u64,
        }
    }
}

/// The digest of a story model: its player id, current quest id, timestamp
/// and completed-quest count.
pub open spec fn spec_hash_of(m: StoryModel) -> HashModel {
    HashModel {
        player_id: m.player_id,
        quest_id: m.current_quest_id,
        timestamp: m.timestamp,
        completed_count: m.completed_quests.len() as int,
    }
}

/// Hash determinism and sensitivity: two story models digest alike exactly
/// when their player id, current quest id, timestamp and completed-quest
/// count all agree; a difference in any of the four separates the digests.
pub proof fn lemma_state_hash_discriminates(a: StoryModel, b: StoryModel)
    ensures
        (spec_hash_of(a) == spec_hash_of(b)) <==> (a.player_id == b.player_id
            && a.current_quest_id == b.current_quest_id && a.timestamp == b.timestamp
            && a.completed_quests.len() == b.completed_quests.len()),
{
    if a.player_id == b.player_id && a.current_quest_id == b.current_quest_id && a.timestamp
        == b.timestamp && a.completed_quests.len() == b.completed_quests.len() {
        assert(spec_hash_of(a) =~= spec_hash_of(b));
    }
}

/// The identity-relevant content of a transition id.
#[verifier::ext_equal]
pub struct TransitionIdModel {
    /// The acting quest.
    pub quest_id: Seq<char>,
    /// The log timestamp at proposal time.
    pub proposed_at: int,
}

/// A transition's identifier: the acting quest and the log timestamp at
/// proposal time.
pub struct TransitionId {
    /// The acting quest.
    pub quest_id: String,
    /// The log timestamp at proposal time.
    pub proposed_at: u64,
}

impl View for TransitionId {
    type V = TransitionIdModel;

    open spec fn view(&self) -> TransitionIdModel {
        TransitionIdModel { quest_id: self.quest_id@, proposed_at: self.proposed_at as int }
    }
}

impl TransitionId {
    /// Copies the identifier.
    pub fn duplicate(&self) -> (r: TransitionId)
        ensures
            r@ == self@,
    {
        TransitionId {
            quest_id: strutil::clone_string(&self.quest_id),
            proposed_at: self.proposed_at,
        }
    }
}

/// Compares two transition ids by content.
pub fn tid_matches(a: &TransitionId, b: &TransitionId) -> (r: bool)
    ensures
        r == (a@ == b@),
{
    if strutil::str_eq(a.quest_id.as_str(), b.quest_id.as_str()) && a.proposed_at
        == b.proposed_at {
        proof {
            assert(a@ =~= b@);
        }
        true
    } else {
        false
    }
}

/// The identity-relevant content of a pseudo-signature.
#[verifier::ext_equal]
pub struct SignatureValueModel {
    /// The signing validator.
    pub validator_id: Seq<char>,
    /// The signed transition's id.
    pub transition_id: TransitionIdModel,
    /// The signed transition's timestamp.
    pub transition_timestamp: int,
}

/// A pseudo-signature over a transition; no real cryptography stands
/// behind it, and a signing backend can replace this value shape.
pub struct SignatureValue {
    /// The signing validator.
    pub validator_id: String,
    /// The signed transition's id.
    pub transition_id: TransitionId,
    /// The signed transition's timestamp.
    pub transition_timestamp: u64,
}

impl View for SignatureValue {
    type V = SignatureValueModel;

    open spec fn view(&self) -> SignatureValueModel {
        SignatureValueModel {
            validator_id: self.validator_id@,
            transition_id: self.transition_id@,
            transition_timestamp: self.transition_timestamp as int,
        }
    }
}

/// The identity-relevant content of a validator's attestation.
#[verifier::ext_equal]
pub struct SignatureModel {
    /// The attesting validator.
    pub validator_id: Seq<char>,
    /// The pseudo-signature value.
    pub signature: SignatureValueModel,
    /// When the attestation was made, in log time.
    pub validation_timestamp: int,
    /// The authenticity score the validator assigned, in thousandths.
    pub authenticity_score: int,
}

/// A validator's attestation of one pending transition.
pub struct ValidatorSignature {
    /// The attesting validator.
    pub validator_id: String,
    /// The pseudo-signature value.
    pub signature: SignatureValue,
    /// When the attestation was made, in log time.
    pub validation_timestamp: u64,
    /// The authenticity score the validator assigned, in thousandths.
    pub authenticity_score: i64,
}

impl View for ValidatorSignature {
    type V = SignatureModel;

    open spec fn view(&self) -> SignatureModel {
        SignatureModel {
            validator_id: self.validator_id@,
            signature: self.signature@,
            validation_timestamp: self.validation_timestamp as int,
            authenticity_score: self.authenticity_score as int,
        }
    }
}

impl ValidatorSignature {
    /// Copies the attestation.
    pub fn duplicate(&self) -> (r: ValidatorSignature)
        ensures
            r@ == self@,
    {
        let r = ValidatorSignature {
            validator_id: strutil::clone_string(&self.validator_id),
            signature: SignatureValue {
                validator_id: strutil::clone_string(&self.signature.validator_id),
                transition_id: self.signature.transition_id.duplicate(),
                transition_timestamp: self.signature.transition_timestamp,
            },
            validation_timestamp: self.validation_timestamp,
            authenticity_score: self.authenticity_score,
        };
        proof {
            assert(r@ =~= self@);
        }
        r
    }
}

/// The models of a signature list, in order.
pub open spec fn sig_models(s: Seq<ValidatorSignature>) -> Seq<SignatureModel> {
    Seq::new(s.len(), |i: int| s[i]@)
}

/// Some attestation in the list comes from this validator.
pub open spec fn signed_by(sigs: Seq<SignatureModel>, validator: Seq<char>) -> bool {
    exists|i: int| 0 <= i < sigs.len() && sigs[i].validator_id == validator
}

/// Whether this validator already attested in the list.
fn has_signature_from(sigs: &Vec<ValidatorSignature>, validator_id: &str) -> (r: bool)
    ensures
        r == signed_by(sig_models(sigs@), validator_id@),
{
    let mut i: usize = 0;
    while i < sigs.len()
        invariant
            i <= sigs@.len(),
            forall|j: int| 0 <= j < i ==> sig_models(sigs@)[j].validator_id != validator_id@,
        decreases sigs@.len() - i,
    {
        if strutil::str_eq(sigs[i].validator_id.as_str(), validator_id) {
            proof {
                assert(sig_models(sigs@)[i as int].validator_id == validator_id@);
            }
            return true;
        }
        i += 1;
    }
    false
}

/// The identity-relevant content of a proposed transition.
#[verifier::ext_equal]
pub struct TransitionModel {
    /// The transition's identifier.
    pub transition_id: TransitionIdModel,
    /// The hash of the state the transition starts from.
    pub from_state_hash: HashModel,
    /// The expected hash of the resulting state.
    pub to_state_hash: HashModel,
    /// The triggering action.
    pub quest_action: ActionModel,
    /// The computed consequences, in application order.
    pub consequences: Seq<ConsequenceModel>,
    /// The collected attestations, in arrival order.
    pub validator_signatures: Seq<SignatureModel>,
    /// When the transition was proposed, in log time.
    pub timestamp: int,
    /// The block height at proposal time.
    pub block_height: int,
}

/// A proposed mutation of the canonical story state.
///
/// It is created pending, mutated only by appending validator signatures,
/// and finalized at most once: finalization removes it from the pending
/// collection.
pub struct StateTransition {
    /// The transition's identifier.
    pub transition_id: TransitionId,
    /// The hash of the state the transition starts from.
    pub from_state_hash: StateHash,
    /// The expected hash of the resulting state.
    pub to_state_hash: StateHash,
    /// The triggering action.
    pub quest_action: QuestAction,
    /// The computed consequences, in application order.
    pub consequences: Vec<StateConsequence>,
    /// The collected attestations, in arrival order.
    pub validator_signatures: Vec<ValidatorSignature>,
    /// When the transition was proposed, in log time.
    pub timestamp: u64,
    /// The block height at proposal time.
    pub block_height: u64,
}

impl View for StateTransition {
    type V = TransitionModel;

    open spec fn view(&self) -> TransitionModel {
        TransitionModel {
            transition_id: self.transition_id@,
            from_state_hash: self.from_state_hash@,
            to_state_hash: self.to_state_hash@,
            quest_action: self.quest_action@,
            consequences: conseq_models(self.consequences@),
            validator_signatures: sig_models(self.validator_signatures@),
            timestamp: self.timestamp as int,
            block_height: self.block_height as int,
        }
    }
}

/// Copies a consequence list element by element.
fn duplicate_consequences(v: &Vec<StateConsequence>) -> (r: Vec<StateConsequence>)
    ensures
        conseq_models(r@) == conseq_models(v@),
        r@.len() == v@.len(),
{
    let mut r: Vec<StateConsequence> = Vec::new();
    let mut i: usize = 0;
    while i < v.len()
        invariant
            i <= v@.len(),
            r@.len() == i,
            forall|j: int| 0 <= j < i ==> (#[trigger] r@[j])@ == v@[j]@,
        decreases v@.len() - i,
    {
        let c = StateConsequence {
            consequence_type: v[i].consequence_type,
            target: strutil::clone_string(&v[i].target),
            value_change: v[i].value_change,
            duration: v[i].duration,
            authenticity_impact: v[i].authenticity_impact,
        };
        r.push(c);
        i += 1;
    }
    proof {
        assert(conseq_models(r@) =~= conseq_models(v@));
    }
    r
}

/// Copies a signature list element by element.
fn duplicate_signatures(v: &Vec<ValidatorSignature>) -> (r: Vec<ValidatorSignature>)
    ensures
        sig_models(r@) == sig_models(v@),
        r@.len() == v@.len(),
{
    let mut r: Vec<ValidatorSignature> = Vec::new();
    let mut i: usize = 0;
    while i < v.len()
        invariant
            i <= v@.len(),
            r@.len() == i,
            forall|j: int| 0 <= j < i ==> (#[trigger] r@[j])@ == v@[j]@,
        decreases v@.len() - i,
    {
        let s = v[i].duplicate();
        r.push(s);
        i += 1;
    }
    proof {
        assert(sig_models(r@) =~= sig_models(v@));
    }
    r
}

impl StateTransition {
    /// The transition's action table is well formed.
    pub open spec fn wf(self) -> bool {
        self.quest_action.wf()
    }

    /// Copies the transition; the copy carries the same content.
    pub fn duplicate(&self) -> (r: StateTransition)
        requires
            self.wf(),
        ensures
            r@ == self@,
            r.wf(),
    {
        let r = StateTransition {
            transition_id: self.transition_id.duplicate(),
            from_state_hash: self.from_state_hash.duplicate(),
            to_state_hash: self.to_state_hash.duplicate(),
            quest_action: self.quest_action.duplicate(),
            consequences: duplicate_consequences(&self.consequences),
            validator_signatures: duplicate_signatures(&self.validator_signatures),
            timestamp: self.timestamp,
            block_height: self.block_height,
        };
        proof {
            assert(r@ =~= self@);
        }
        r
    }
}

/// The models of the pending collection, in order.
pub open spec fn transition_models(s: Seq<StateTransition>) -> Seq<TransitionModel> {
    Seq::new(s.len(), |i: int| s[i]@)
}

/// Process-wide consensus policy, read-only after construction.
pub struct ConsensusRules {
    /// The quorum fraction, in thousandths.
    pub consensus_threshold: u64,
    /// Upper bound on the pending collection.
    pub max_pending_transitions: usize,
    /// Minimum acceptable authenticity, in thousandths.
    pub authenticity_minimum: i64,
    /// Validator timeout in seconds; carried for hosts, not consulted by
    /// the log itself.
    pub validator_timeout: u64,
}

impl ConsensusRules {
    /// The policy's threshold is a fraction.
    pub open spec fn wf(self) -> bool {
        self.consensus_threshold <= 1000
    }
}

impl Default for ConsensusRules {
    /// The default policy: a two-thirds quorum fraction, at most 100
    /// pending transitions, a 0.85 authenticity floor, and a one-hour
    /// validator timeout.
    fn default() -> (d: ConsensusRules)
        ensures
            d.wf(),
            d.consensus_threshold == 670,
            d.max_pending_transitions == 100,
            d.authenticity_minimum == 850,
            d.validator_timeout == 3600,
    {
        ConsensusRules {
            consensus_threshold: 670,
            max_pending_transitions: 100,
            authenticity_minimum: 850,
            validator_timeout: 3600,
        }
    }
}

/// The quorum for a threshold in thousandths over `n` validators:
/// the least count of signatures at or above `threshold * n / 1000`.
pub open spec fn spec_quorum(threshold: int, n: int) -> int {
    (threshold * n + 999) / 1000
}

/// Computes the quorum size for this many validators.
pub fn quorum_size(threshold: u64, n: usize) -> (r: usize)
    requires
        threshold <= 1000,
    ensures
        r == spec_quorum(threshold as int, n as int),
        r <= n,
{
    proof {
        assert(threshold as int * n as int <= 1000 * n as int) by (nonlinear_arith)
            requires
                threshold <= 1000,
                n >= 0,
        ;
        assert(1000 * n as int <= 1000 * usize::MAX) by (nonlinear_arith)
            requires
                n <= usize::MAX,
        ;
    }
    let wide: u128 = (threshold as u128 * n as u128 + 999) / 1000;
    proof {
        assert((threshold as int * n as int + 999) / 1000 <= (1000 * n as int + 999) / 1000);
        assert((1000 * n as int + 999) / 1000 == n as int);
    }
    wide as usize
}

/// The transition log of one story: the canonical state, the pending
/// transitions, the consensus policy, the append-only state history, and
/// the known validators.
pub struct TracStateManager {
    /// The canonical story state, absent until a player is initialized.
    pub current_state: Option<StoryState>,
    /// Proposed transitions that have not finalized.
    pub pending_transitions: Vec<StateTransition>,
    /// The consensus policy.
    pub consensus_rules: ConsensusRules,
    /// Every state that was ever canonical, in order.
    pub state_history: Vec<StoryState>,
    /// The validators whose count the quorum is derived from.
    pub authenticity_validators: Vec<String>,
}

/// The name a governor interaction falls back on when its parameters name
/// no governor.
pub open spec fn governor_target(params: Map<Seq<char>, Seq<char>>) -> Seq<char> {
    if params.dom().contains("governor_name"@) {
        params["governor_name"@]
    } else {
        "unknown"@
    }
}

/// The consequence policy table: what each action kind deterministically
/// causes, in list order.
pub open spec fn spec_consequences_of(a: ActionModel) -> Seq<ConsequenceModel> {
    match a.action_type {
        ActionType::CompleteQuest => seq![
            ConsequenceModel {
                consequence_type: ConsequenceType::ReputationChange,
                target: "overall"@,
                value_change: 100,
                duration: ConsequenceDuration::Permanent,
                authenticity_impact: 50,
            },
            ConsequenceModel {
                consequence_type: ConsequenceType::TraditionMastery,
                target: "Enochian"@,
                value_change: 50,
                duration: ConsequenceDuration::Permanent,
                authenticity_impact: 80,
            },
        ],
        ActionType::InteractWithGovernor => seq![
            ConsequenceModel {
                consequence_type: ConsequenceType::GovernorRelationship,
                target: governor_target(a.parameters),
                value_change: 150,
                duration: ConsequenceDuration::Permanent,
                authenticity_impact: 100,
            },
        ],
        ActionType::PerformRitual => seq![
            ConsequenceModel {
                consequence_type: ConsequenceType::EnergyModification,
                target: "energy_level"@,
                value_change: -5,
                duration: ConsequenceDuration::Temporary,
                authenticity_impact: 0,
            },
            ConsequenceModel {
                consequence_type: ConsequenceType::WisdomUnlock,
                target: "ritual_knowledge"@,
                value_change: 1000,
                duration: ConsequenceDuration::Permanent,
                authenticity_impact: 120,
            },
        ],
        _ => seq![
            ConsequenceModel {
                consequence_type: ConsequenceType::ReputationChange,
                target: "overall"@,
                value_change: 10,
                duration: ConsequenceDuration::Temporary,
                authenticity_impact: 10,
            },
        ],
    }
}

/// One consequence applied to a story model, per its kind's update rule.
pub open spec fn spec_apply_consequence(m: StoryModel, c: ConsequenceModel) -> StoryModel {
    match c.consequence_type {
        ConsequenceType::ReputationChange => StoryModel {
            reputation_scores: m.reputation_scores.insert(
                c.target,
                scores::clamp_int(
                    scores::get_or_zero(m.reputation_scores, c.target) + c.value_change,
                    i64::MIN as int,
                    i64::MAX as int,
                ) as i64,
            ),
            ..m
        },
        ConsequenceType::TraditionMastery => StoryModel {
            tradition_mastery: m.tradition_mastery.insert(
                c.target,
                scores::clamp_int(
                    scores::get_or_zero(m.tradition_mastery, c.target) + c.value_change,
                    0,
                    1000,
                ) as i64,
            ),
            ..m
        },
        ConsequenceType::GovernorRelationship => StoryModel {
            governor_relationships: m.governor_relationships.insert(
                c.target,
                scores::clamp_int(
                    scores::get_or_zero(m.governor_relationships, c.target) + c.value_change,
                    -1000,
                    1000,
                ) as i64,
            ),
            ..m
        },
        ConsequenceType::EnergyModification => StoryModel {
            energy_level: scores::clamp_int(
                m.energy_level + c.value_change,
                0,
                constants::MAX_ENERGY as int,
            ),
            ..m
        },
        ConsequenceType::ItemGain => StoryModel {
            sacred_items: strutil::push_unique_model(m.sacred_items, c.target),
            ..m
        },
        ConsequenceType::AethyrAccess => match strutil::spec_parse_u32(c.target) {
            Some(t) => StoryModel {
                aethyr_access: strutil::push_unique_u32_model(m.aethyr_access, t as u32),
                ..m
            },
            None => m,
        },
        _ => m,
    }
}

/// A consequence list applied in order.
pub open spec fn spec_apply_consequences(m: StoryModel, cs: Seq<ConsequenceModel>) -> StoryModel
    decreases cs.len(),
{
    if cs.len() == 0 {
        m
    } else {
        spec_apply_consequences(spec_apply_consequence(m, cs[0]), cs.drop_first())
    }
}

/// The state a transition produces: the consequences applied in order,
/// then a fresh timestamp, then the hash recomputed.
pub open spec fn spec_transition_result(m: StoryModel, cs: Seq<ConsequenceModel>, ts: int) -> StoryModel {
    let folded = spec_apply_consequences(m, cs);
    let stamped = StoryModel { timestamp: ts, ..folded };
    StoryModel { state_hash: spec_hash_of(stamped), ..stamped }
}

/// The placeholder story model: no player, no quest, no energy.
pub open spec fn empty_story_model() -> StoryModel {
    StoryModel {
        player_id: "empty"@,
        current_quest_id: "none"@,
        completed_quests: Seq::<Seq<char>>::empty(),
        active_branches: Seq::<Seq<char>>::empty(),
        governor_relationships: Map::<Seq<char>, i64>::empty(),
        tradition_mastery: Map::<Seq<char>, i64>::empty(),
        reputation_scores: Map::<Seq<char>, i64>::empty(),
        energy_level: 0,
        aethyr_access: Seq::<u32>::empty(),
        sacred_items: Seq::<Seq<char>>::empty(),
        timestamp: 0,
        state_hash: HashModel {
            player_id: "empty"@,
            quest_id: "none"@,
            timestamp: 0,
            completed_count: 0,
        },
    }
}

/// The genesis story model of a player: the welcome quest, full energy,
/// seed mastery, empty histories, and a hash over its own fields.
pub open spec fn genesis_model(pid: Seq<char>, ts: int) -> StoryModel {
    StoryModel {
        player_id: pid,
        current_quest_id: "welcome_quest"@,
        completed_quests: Seq::<Seq<char>>::empty(),
        active_branches: Seq::<Seq<char>>::empty(),
        governor_relationships: Map::<Seq<char>, i64>::empty(),
        tradition_mastery: Map::<Seq<char>, i64>::empty()
            .insert("Enochian"@, 100i64)
            .insert("Hermetic_Qabalah"@, 50i64),
        reputation_scores: Map::<Seq<char>, i64>::empty(),
        energy_level: constants::MAX_ENERGY as int,
        aethyr_access: Seq::<u32>::empty(),
        sacred_items: Seq::<Seq<char>>::empty(),
        timestamp: ts,
        state_hash: HashModel {
            player_id: pid,
            quest_id: "welcome_quest"@,
            timestamp: ts,
            completed_count: 0,
        },
    }
}

impl TracStateManager {
    /// The log's policy, canonical state and pending transitions are well
    /// formed.
    pub open spec fn wf(self) -> bool {
        &&& self.consensus_rules.wf()
        &&& match self.current_state {
            Some(s) => s.wf(),
            None => true,
        }
        &&& forall|i: int|
            0 <= i < self.pending_transitions@.len()
                ==> (#[trigger] self.pending_transitions@[i]).wf()
    }

    /// The log's clock: a base epoch plus ten minutes per recorded state.
    pub open spec fn spec_timestamp_at(n: int) -> int {
        scores::sat_add_u64(scores::sat_mul_u64(n, 600), 1642680000)
    }

    /// The simulated block height: a base height plus one per recorded
    /// state.
    pub open spec fn spec_block_height_at(n: int) -> int {
        scores::sat_add_u64(n, 800000)
    }

    /// A fresh log with the default policy and the three built-in
    /// validators.
    pub fn new() -> (r: TracStateManager)
        ensures
            r.wf(),
            r.current_state is None,
            r.pending_transitions@ == Seq::<StateTransition>::empty(),
            r.state_history@ == Seq::<StoryState>::empty(),
            r.consensus_rules.consensus_threshold == 670,
            r.consensus_rules.max_pending_transitions == 100,
            r.consensus_rules.authenticity_minimum == 850,
            r.consensus_rules.validator_timeout == 3600,
            r.authenticity_validators.deep_view() =~= (seq![
                "enochian_validator"@,
                "hermetic_validator"@,
                "tradition_validator"@,
            ]),
    {
        let mut validators: Vec<String> = Vec::new();
        validators.push("enochian_validator".to_owned());
        validators.push("hermetic_validator".to_owned());
        validators.push("tradition_validator".to_owned());
        let r = TracStateManager {
            current_state: None,
            pending_transitions: Vec::new(),
            consensus_rules: ConsensusRules::default(),
            state_history: Vec::new(),
            authenticity_validators: validators,
        };
        proof {
            assert(r.authenticity_validators.deep_view() =~= seq![
                "enochian_validator"@,
                "hermetic_validator"@,
                "tradition_validator"@,
            ]);
        }
        r
    }

    /// The log's current timestamp.
    fn get_current_timestamp(&self) -> (t: u64)
        ensures
            t == TracStateManager::spec_timestamp_at(self.state_history@.len() as int),
    {
        let n = self.state_history.len() as u64;
        match n.checked_mul(600) {
            Some(x) => x.saturating_add(1642680000),
            None => u64::MAX,
        }
    }

    /// The log's current block height.
    fn get_current_block_height(&self) -> (h: u64)
        ensures
            h == TracStateManager::spec_block_height_at(self.state_history@.len() as int),
    {
        (self.state_history.len() as u64).saturating_add(800000)
    }

    /// Reads the canonical story state.
    pub fn get_current_state(&self) -> (r: Option<&StoryState>)
        ensures
            match r {
                Some(s) => self.current_state matches Some(c) && *s == c,
                None => self.current_state is None,
            },
    {
        match &self.current_state {
            Some(s) => Some(s),
            None => None,
        }
    }

    /// Creates and records the genesis state for a player.
    ///
    /// Calling this again replaces the canonical state with a fresh
    /// genesis, as the log's lifecycle prescribes: each call appends the
    /// new genesis to the history, and earlier entries stay untouched.
    pub fn initialize_player_state(&mut self, player_id: &str) -> (r: StoryState)
        requires
            old(self).wf(),
        ensures
            final(self).wf(),
            final(self).consensus_rules == old(self).consensus_rules,
            final(self).pending_transitions@ == old(self).pending_transitions@,
            final(self).authenticity_validators@ == old(self).authenticity_validators@,
            r@ == genesis_model(
                player_id@,
                TracStateManager::spec_timestamp_at(old(self).state_history@.len() as int),
            ),
            r.wf(),
            final(self).current_state matches Some(c) && c@ == r@,
            final(self).state_history@.len() == old(self).state_history@.len() + 1,
            final(self).state_history@.last()@ == r@,
            forall|i: int|
                0 <= i < old(self).state_history@.len()
                    ==> #[trigger] final(self).state_history@[i] == old(self).state_history@[i],
    {
        let ts = self.get_current_timestamp();
        let mut mastery: ScoreMap = AssocMap::new();
        mastery.insert("Enochian", 100);
        mastery.insert("Hermetic_Qabalah", 50);
        let st = StoryState {
            player_id: player_id.to_owned(),
            current_quest_id: "welcome_quest".to_owned(),
            completed_quests: Vec::new(),
            active_branches: Vec::new(),
            governor_relationships: AssocMap::new(),
            tradition_mastery: mastery,
            reputation_scores: AssocMap::new(),
            energy_level: constants::MAX_ENERGY,
            aethyr_access: Vec::new(),
            sacred_items: Vec::new(),
            timestamp: ts,
            state_hash: StateHash {
                player_id: player_id.to_owned(),
                quest_id: "welcome_quest".to_owned(),
                timestamp: ts,
                completed_count: 0,
            },
        };
        proof {
            assert(st.completed_quests.deep_view() =~= Seq::<Seq<char>>::empty());
            assert(st.active_branches.deep_view() =~= Seq::<Seq<char>>::empty());
            assert(st.sacred_items.deep_view() =~= Seq::<Seq<char>>::empty());
            assert(st@ =~= genesis_model(player_id@, ts as int));
        }
        let hist_copy = st.duplicate();
        let ret = st.duplicate();
        self.current_state = Some(st);
        self.state_history.push(hist_copy);
        ret
    }

    /// Evaluates the consequence policy table for one action.
    pub fn calculate_action_consequences(&self, action: &QuestAction) -> (r: Vec<
        StateConsequence,
    >)
        requires
            action.wf(),
        ensures
            conseq_models(r@) == spec_consequences_of(action@),
    {
        let mut r: Vec<StateConsequence> = Vec::new();
        match action.action_type {
            ActionType::CompleteQuest => {
                r.push(StateConsequence {
                    consequence_type: ConsequenceType::ReputationChange,
                    target: "overall".to_owned(),
                    value_change: 100,
                    duration: ConsequenceDuration::Permanent,
                    authenticity_impact: 50,
                });
                r.push(StateConsequence {
                    consequence_type: ConsequenceType::TraditionMastery,
                    target: "Enochian".to_owned(),
                    value_change: 50,
                    duration: ConsequenceDuration::Permanent,
                    authenticity_impact: 80,
                });
            },
            ActionType::InteractWithGovernor => {
                let governor_name: String = match action.parameters.get("governor_name") {
                    Some(v) => strutil::clone_string(v),
                    None => "unknown".to_owned(),
                };
                r.push(StateConsequence {
                    consequence_type: ConsequenceType::GovernorRelationship,
                    target: governor_name,
                    value_change: 150,
                    duration: ConsequenceDuration::Permanent,
                    authenticity_impact: 100,
                });
            },
            ActionType::PerformRitual => {
                r.push(StateConsequence {
                    consequence_type: ConsequenceType::EnergyModification,
                    target: "energy_level".to_owned(),
                    value_change: -5,
                    duration: ConsequenceDuration::Temporary,
                    authenticity_impact: 0,
                });
                r.push(StateConsequence {
                    consequence_type: ConsequenceType::WisdomUnlock,
                    target: "ritual_knowledge".to_owned(),
                    value_change: 1000,
                    duration: ConsequenceDuration::Permanent,
                    authenticity_impact: 120,
                });
            },
            _ => {
                r.push(StateConsequence {
                    consequence_type: ConsequenceType::ReputationChange,
                    target: "overall".to_owned(),
                    value_change: 10,
                    duration: ConsequenceDuration::Temporary,
                    authenticity_impact: 10,
                });
            },
        }
        proof {
            assert(conseq_models(r@) =~= spec_consequences_of(action@));
        }
        r
    }

    /// Applies a consequence list to a state in order, stamps the result
    /// with the log's current time, and recomputes its hash.
    #[verifier::loop_isolation(false)]
    pub fn apply_consequences(&self, current: &StoryState, consequences: &Vec<StateConsequence>) -> (r:
        StoryState)
        requires
            current.wf(),
        ensures
            r@ == spec_transition_result(
                current@,
                conseq_models(consequences@),
                TracStateManager::spec_timestamp_at(self.state_history@.len() as int),
            ),
            r.wf(),
    {
        let ghost cs = conseq_models(consequences@);
        let mut st = current.duplicate();
        proof {
            assert(cs.skip(0) =~= cs);
        }
        let n = consequences.len();
        let mut i: usize = 0;
        while i < n
            invariant
                i <= n,
                st.governor_relationships.wf(),
                st.tradition_mastery.wf(),
                st.reputation_scores.wf(),
                story_model_wf(st@),
                spec_apply_consequences(current@, cs) == spec_apply_consequences(
                    st@,
                    cs.skip(i as int),
                ),
            decreases n - i,
        {
            let ghost pre = st@;
            proof {
                assert(cs.skip(i as int)[0] == cs[i as int]);
                assert(cs.skip(i as int).drop_first() =~= cs.skip(i + 1));
                assert(cs[i as int] == consequences@[i as int]@);
            }
            let c = &consequences[i];
            match c.consequence_type {
                ConsequenceType::ReputationChange => {
                    let cur = st.reputation_scores.get_milli(c.target.as_str());
                    let v = scores::clamped_add(cur, c.value_change, i64::MIN, i64::MAX);
                    st.reputation_scores.insert(c.target.as_str(), v);
                    proof {
                        assert(st@ =~= spec_apply_consequence(pre, cs[i as int]));
                    }
                },
                ConsequenceType::TraditionMastery => {
                    let cur = st.tradition_mastery.get_milli(c.target.as_str());
                    let v = scores::clamped_add(cur, c.value_change, 0, 1000);
                    st.tradition_mastery.insert(c.target.as_str(), v);
                    proof {
                        assert(st@ =~= spec_apply_consequence(pre, cs[i as int]));
                        assert forall|k: Seq<char>| #[trigger] st@.tradition_mastery.dom().contains(
                            k,
                        ) implies 0 <= st@.tradition_mastery[k] <= 1000 by {
                            if k != c.target@ {
                                assert(pre.tradition_mastery.dom().contains(k));
                            }
                        }
                    }
                },
                ConsequenceType::GovernorRelationship => {
                    let cur = st.governor_relationships.get_milli(c.target.as_str());
                    let v = scores::clamped_add(cur, c.value_change, -1000, 1000);
                    st.governor_relationships.insert(c.target.as_str(), v);
                    proof {
                        assert(st@ =~= spec_apply_consequence(pre, cs[i as int]));
                        assert forall|k: Seq<char>|
                            #[trigger] st@.governor_relationships.dom().contains(k)
                                implies -1000 <= st@.governor_relationships[k] <= 1000 by {
                            if k != c.target@ {
                                assert(pre.governor_relationships.dom().contains(k));
                            }
                        }
                    }
                },
                ConsequenceType::EnergyModification => {
                    let e = scores::clamped_add(
                        st.energy_level as i64,
                        c.value_change,
                        0,
                        constants::MAX_ENERGY as i64,
                    );
                    st.energy_level = e as u32;
                    proof {
                        assert(st@ =~= spec_apply_consequence(pre, cs[i as int]));
                    }
                },
                ConsequenceType::ItemGain => {
                    proof {
                        strutil::lemma_push_unique_no_dups(pre.sacred_items, c.target@);
                    }
                    strutil::push_unique_string(&mut st.sacred_items, &c.target);
                    proof {
                        assert(st@ =~= spec_apply_consequence(pre, cs[i as int]));
                    }
                },
                ConsequenceType::AethyrAccess => {
                    match strutil::parse_u32(c.target.as_str()) {
                        Some(t) => {
                            proof {
                                strutil::lemma_push_unique_u32_no_dups(pre.aethyr_access, t);
                            }
                            strutil::push_unique_u32(&mut st.aethyr_access, t);
                            proof {
                                assert(st@ =~= spec_apply_consequence(pre, cs[i as int]));
                            }
                        },
                        None => {
                            proof {
                                assert(st@ =~= spec_apply_consequence(pre, cs[i as int]));
                            }
                        },
                    }
                },
                _ => {
                    proof {
                        assert(st@ =~= spec_apply_consequence(pre, cs[i as int]));
                    }
                },
            }
            i += 1;
        }
        proof {
            assert(cs.skip(n as int) =~= Seq::<ConsequenceModel>::empty());
        }
        st.timestamp = self.get_current_timestamp();
        let h = st.compute_hash();
        st.state_hash = h;
        proof {
            assert(st@ =~= spec_transition_result(
                current@,
                cs,
                TracStateManager::spec_timestamp_at(self.state_history@.len() as int),
            ));
        }
        st
    }

    /// The simplified authenticity heuristic over one action: a baseline,
    /// a bonus for an Enochian proof token, and a bonus for a named
    /// tradition, capped at one.
    pub open spec fn spec_validate_authenticity(a: ActionModel) -> int {
        let base = 850 + (if strutil::spec_contains_substr(a.authenticity_proof, "enochian"@) {
            100int
        } else {
            0int
        }) + (if a.parameters.dom().contains("tradition"@) {
            50int
        } else {
            0int
        });
        if base > 1000 {
            1000
        } else {
            base
        }
    }

    /// Scores one action with the simplified authenticity heuristic.
    pub fn validate_authenticity(&self, action: &QuestAction) -> (r: i64)
        requires
            action.wf(),
        ensures
            r == TracStateManager::spec_validate_authenticity(action@),
    {
        let mut score: i64 = 850;
        if strutil::contains_substr(action.authenticity_proof.as_str(), "enochian") {
            score = score + 100;
        }
        if action.parameters.contains_key("tradition") {
            score = score + 50;
        }
        if score > 1000 {
            score = 1000;
        }
        score
    }

    /// Builds the pseudo-signature of one validator over one transition.
    fn create_signature(&self, transition: &StateTransition, validator_id: &str) -> (r:
        SignatureValue)
        ensures
            r@ == (SignatureValueModel {
                validator_id: validator_id@,
                transition_id: transition.transition_id@,
                transition_timestamp: transition.timestamp as int,
            }),
    {
        let r = SignatureValue {
            validator_id: validator_id.to_owned(),
            transition_id: transition.transition_id.duplicate(),
            transition_timestamp: transition.timestamp,
        };
        proof {
            assert(r@ =~= (SignatureValueModel {
                validator_id: validator_id@,
                transition_id: transition.transition_id@,
                transition_timestamp: transition.timestamp as int,
            }));
        }
        r
    }

    /// Whether a transition's collected signatures reach the quorum.
    fn check_consensus(&self, transition: &StateTransition) -> (r: bool)
        requires
            self.consensus_rules.wf(),
        ensures
            r == (transition.validator_signatures@.len() >= spec_quorum(
                self.consensus_rules.consensus_threshold as int,
                self.authenticity_validators@.len() as int,
            )),
    {
        let required = quorum_size(
            self.consensus_rules.consensus_threshold,
            self.authenticity_validators.len(),
        );
        transition.validator_signatures.len() >= required
    }

    /// What `propose_state_transition` rejects, in check order: no
    /// initialized state, or a full pending collection.
    pub open spec fn spec_propose_check(self) -> Option<EnochianError> {
        if self.current_state is None {
            Some(EnochianError::NoCurrentState)
        } else if self.pending_transitions@.len() >= self.consensus_rules.max_pending_transitions {
            Some(EnochianError::PendingLimitReached)
        } else {
            None
        }
    }

    /// The transition a proposal creates: the policy's consequences, the
    /// canonical state's hash on one side and the resulting state's hash
    /// on the other, an empty signature list, and the log's current time
    /// and height.
    pub open spec fn spec_proposed_transition(self, a: ActionModel) -> TransitionModel {
        let cur = self.current_state.unwrap()@;
        let n = self.state_history@.len() as int;
        let ts = TracStateManager::spec_timestamp_at(n);
        let cs = spec_consequences_of(a);
        TransitionModel {
            transition_id: TransitionIdModel { quest_id: a.quest_id, proposed_at: ts },
            from_state_hash: cur.state_hash,
            to_state_hash: spec_transition_result(cur, cs, ts).state_hash,
            quest_action: a,
            consequences: cs,
            validator_signatures: Seq::<SignatureModel>::empty(),
            timestamp: ts,
            block_height: TracStateManager::spec_block_height_at(n),
        }
    }

    /// Proposes a state transition for a player action.
    ///
    /// The proposal computes the action's consequences and the resulting
    /// state's hash, and joins the pending collection with no signatures;
    /// the canonical state does not change until quorum. The authenticity
    /// proof rides inside the action itself.
    pub fn propose_state_transition(&mut self, quest_action: QuestAction) -> (r: Result<
        StateTransition,
        EnochianError,
    >)
        requires
            old(self).wf(),
            quest_action.wf(),
        ensures
            final(self).wf(),
            final(self).consensus_rules == old(self).consensus_rules,
            final(self).current_state == old(self).current_state,
            final(self).state_history@ == old(self).state_history@,
            final(self).authenticity_validators@ == old(self).authenticity_validators@,
            match r {
                Ok(t) => old(self).spec_propose_check() is None
                    && t@ == old(self).spec_proposed_transition(quest_action@)
                    && t.wf()
                    && transition_models(final(self).pending_transitions@) == transition_models(
                        old(self).pending_transitions@,
                    ).push(t@),
                Err(e) => old(self).spec_propose_check() == Some(e)
                    && *final(self) == *old(self),
            },
    {
        if self.pending_transitions.len() >= self.consensus_rules.max_pending_transitions {
            match &self.current_state {
                None => {
                    return Err(EnochianError::NoCurrentState);
                },
                Some(_) => {
                    return Err(EnochianError::PendingLimitReached);
                },
            }
        }
        let cs = self.calculate_action_consequences(&quest_action);
        let ts = self.get_current_timestamp();
        let bh = self.get_current_block_height();
        let (new_hash, from_hash) = match &self.current_state {
            None => {
                return Err(EnochianError::NoCurrentState);
            },
            Some(cur) => {
                let new_state = self.apply_consequences(cur, &cs);
                (new_state.state_hash, cur.state_hash.duplicate())
            },
        };
        let transition = StateTransition {
            transition_id: TransitionId {
                quest_id: strutil::clone_string(&quest_action.quest_id),
                proposed_at: ts,
            },
            from_state_hash: from_hash,
            to_state_hash: new_hash,
            quest_action,
            consequences: cs,
            validator_signatures: Vec::new(),
            timestamp: ts,
            block_height: bh,
        };
        let ret = transition.duplicate();
        proof {
            assert(transition@ =~= old(self).spec_proposed_transition(quest_action@)) by {
                assert(sig_models(transition.validator_signatures@) =~= Seq::<
                    SignatureModel,
                >::empty());
            }
        }
        self.pending_transitions.push(transition);
        proof {
            assert(transition_models(self.pending_transitions@) =~= transition_models(
                old(self).pending_transitions@,
            ).push(ret@));
        }
        Ok(ret)
    }

    /// The position of the first pending transition with this id.
    pub open spec fn spec_find_transition(
        s: Seq<StateTransition>,
        tid: TransitionIdModel,
    ) -> Option<int>
        decreases s.len(),
    {
        if s.len() == 0 {
            None
        } else if s[0].transition_id@ == tid {
            Some(0int)
        } else {
            match TracStateManager::spec_find_transition(s.drop_first(), tid) {
                Some(i) => Some(i + 1),
                None => None,
            }
        }
    }

    /// A scan that stops at the first match finds what the spec names.
    proof fn lemma_find_transition_at(s: Seq<StateTransition>, tid: TransitionIdModel, i: int)
        requires
            0 <= i < s.len(),
            s[i].transition_id@ == tid,
            forall|j: int| 0 <= j < i ==> s[j].transition_id@ != tid,
        ensures
            TracStateManager::spec_find_transition(s, tid) == Some(i),
        decreases i,
    {
        if i == 0 {
        } else {
            let rest = s.drop_first();
            assert(rest[i - 1] == s[i]);
            assert forall|j: int| 0 <= j < i - 1 implies rest[j].transition_id@ != tid by {
                assert(rest[j] == s[j + 1]);
            }
            TracStateManager::lemma_find_transition_at(rest, tid, i - 1);
        }
    }

    /// A scan that matches nowhere finds nothing.
    proof fn lemma_find_transition_none(s: Seq<StateTransition>, tid: TransitionIdModel)
        requires
            forall|j: int| 0 <= j < s.len() ==> s[j].transition_id@ != tid,
        ensures
            TracStateManager::spec_find_transition(s, tid) is None,
        decreases s.len(),
    {
        if s.len() > 0 {
            let rest = s.drop_first();
            assert forall|j: int| 0 <= j < rest.len() implies rest[j].transition_id@ != tid by {
                assert(rest[j] == s[j + 1]);
            }
            TracStateManager::lemma_find_transition_none(rest, tid);
        }
    }

    /// Finds the first pending transition with this id.
    fn find_pending(&self, transition_id: &TransitionId) -> (r: Option<usize>)
        ensures
            match r {
                Some(i) => TracStateManager::spec_find_transition(
                    self.pending_transitions@,
                    transition_id@,
                ) == Some(i as int) && i < self.pending_transitions@.len()
                    && self.pending_transitions@[i as int].transition_id@ == transition_id@,
                None => TracStateManager::spec_find_transition(
                    self.pending_transitions@,
                    transition_id@,
                ) is None,
            },
    {
        let n = self.pending_transitions.len();
        let mut i: usize = 0;
        while i < n
            invariant
                i <= n,
                n == self.pending_transitions@.len(),
                forall|j: int|
                    0 <= j < i ==> self.pending_transitions@[j].transition_id@ != transition_id@,
            decreases n - i,
        {
            if tid_matches(&self.pending_transitions[i].transition_id, transition_id) {
                proof {
                    TracStateManager::lemma_find_transition_at(
                        self.pending_transitions@,
                        transition_id@,
                        i as int,
                    );
                }
                return Some(i);
            }
            i += 1;
        }
        proof {
            TracStateManager::lemma_find_transition_none(
                self.pending_transitions@,
                transition_id@,
            );
        }
        None
    }

    /// The attestation one validator produces over one transition model.
    pub open spec fn spec_signature_of(
        self,
        t: TransitionModel,
        validator: Seq<char>,
    ) -> SignatureModel {
        SignatureModel {
            validator_id: validator,
            signature: SignatureValueModel {
                validator_id: validator,
                transition_id: t.transition_id,
                transition_timestamp: t.timestamp,
            },
            validation_timestamp: TracStateManager::spec_timestamp_at(
                self.state_history@.len() as int,
            ),
            authenticity_score: TracStateManager::spec_validate_authenticity(t.quest_action),
        }
    }

    /// A transition model with one more attestation appended.
    pub open spec fn spec_signed(t: TransitionModel, s: SignatureModel) -> TransitionModel {
        TransitionModel { validator_signatures: t.validator_signatures.push(s), ..t }
    }

    /// Attests to a pending transition and finalizes it on quorum.
    ///
    /// The first pending transition with this id receives a fresh
    /// signature scored by the authenticity heuristic; a validator may
    /// attest to a given transition only once, so repeated signatures
    /// cannot inflate the quorum count. The transition finalizes exactly
    /// when the signature count reaches the quorum
    /// `ceil(threshold * validators)`: it then leaves the pending
    /// collection once and for all, its consequences apply to whatever
    /// state is canonical at this moment, and the new state joins the
    /// history. Below quorum it stays pending with the signature appended.
    pub fn validate_transition(&mut self, transition_id: &TransitionId, validator_id: &str) -> (r:
        Result<ValidatorSignature, EnochianError>)
        requires
            old(self).wf(),
        ensures
            final(self).wf(),
            final(self).consensus_rules == old(self).consensus_rules,
            final(self).authenticity_validators@ == old(self).authenticity_validators@,
            match r {
                Err(e) => ({
                    let found = TracStateManager::spec_find_transition(
                        old(self).pending_transitions@,
                        transition_id@,
                    );
                    &&& *final(self) == *old(self)
                    &&& (match found {
                        None => e == EnochianError::TransitionNotFound,
                        Some(idx) => e == EnochianError::ValidatorAlreadySigned && signed_by(
                            old(self).pending_transitions@[idx]@.validator_signatures,
                            validator_id@,
                        ),
                    })
                }),
                Ok(sig) => ({
                    let found = TracStateManager::spec_find_transition(
                        old(self).pending_transitions@,
                        transition_id@,
                    );
                    &&& found is Some
                    &&& ({
                        let idx = found.unwrap();
                        let t0 = old(self).pending_transitions@[idx]@;
                        let sigm = old(self).spec_signature_of(t0, validator_id@);
                        let signed = TracStateManager::spec_signed(t0, sigm);
                        let quorum = spec_quorum(
                            old(self).consensus_rules.consensus_threshold as int,
                            old(self).authenticity_validators@.len() as int,
                        );
                        &&& !signed_by(t0.validator_signatures, validator_id@)
                        &&& sig@ == sigm
                        &&& (signed.validator_signatures.len() >= quorum ==> {
                            &&& transition_models(final(self).pending_transitions@)
                                == transition_models(old(self).pending_transitions@).remove(idx)
                            &&& (match old(self).current_state {
                                Some(c) => {
                                    let newm = spec_transition_result(
                                        c@,
                                        t0.consequences,
                                        TracStateManager::spec_timestamp_at(
                                            old(self).state_history@.len() as int,
                                        ),
                                    );
                                    &&& final(self).current_state matches Some(c2) && c2@ == newm
                                    &&& final(self).state_history@.len()
                                        == old(self).state_history@.len() + 1
                                    &&& final(self).state_history@.last()@ == newm
                                    &&& forall|i: int|
                                        0 <= i < old(self).state_history@.len()
                                            ==> #[trigger] final(self).state_history@[i]
                                            == old(self).state_history@[i]
                                },
                                None => final(self).current_state is None
                                    && final(self).state_history@ == old(self).state_history@,
                            })
                        })
                        &&& (signed.validator_signatures.len() < quorum ==> {
                            &&& transition_models(final(self).pending_transitions@)
                                == transition_models(old(self).pending_transitions@).update(
                                idx,
                                signed,
                            )
                            &&& final(self).current_state == old(self).current_state
                            &&& final(self).state_history@ == old(self).state_history@
                        })
                    })
                }),
            },
    {
        let idx = match self.find_pending(transition_id) {
            Some(i) => i,
            None => {
                return Err(EnochianError::TransitionNotFound);
            },
        };
        if has_signature_from(&self.pending_transitions[idx].validator_signatures, validator_id) {
            return Err(EnochianError::ValidatorAlreadySigned);
        }
        let ghost oldpend = self.pending_transitions@;
        let ghost t0 = oldpend[idx as int]@;
        let mut t = self.pending_transitions.remove(idx);
        let score = self.validate_authenticity(&t.quest_action);
        let ts = self.get_current_timestamp();
        let sigval = self.create_signature(&t, validator_id);
        let sig = ValidatorSignature {
            validator_id: validator_id.to_owned(),
            signature: sigval,
            validation_timestamp: ts,
            authenticity_score: score,
        };
        let ret = sig.duplicate();
        let ghost sigm = old(self).spec_signature_of(t0, validator_id@);
        proof {
            assert(ret@ =~= sigm);
        }
        t.validator_signatures.push(sig);
        proof {
            assert(t@ =~= TracStateManager::spec_signed(t0, sigm)) by {
                assert(sig_models(t.validator_signatures@) =~= t0.validator_signatures.push(sigm));
            }
        }
        if self.check_consensus(&t) {
            proof {
                assert(transition_models(self.pending_transitions@) =~= transition_models(
                    oldpend,
                ).remove(idx as int));
                assert forall|i: int|
                    0 <= i < self.pending_transitions@.len()
                        implies (#[trigger] self.pending_transitions@[i]).wf() by {
                    if i < idx {
                        assert(self.pending_transitions@[i] == oldpend[i]);
                    } else {
                        assert(self.pending_transitions@[i] == oldpend[i + 1]);
                    }
                }
            }
            self.finalize_transition(&t);
        } else {
            let ghost signedt = t;
            self.pending_transitions.insert(idx, t);
            proof {
                assert(self.pending_transitions@ =~= oldpend.update(idx as int, signedt));
                assert(transition_models(self.pending_transitions@) =~= transition_models(
                    oldpend,
                ).update(idx as int, signedt@));
                assert forall|i: int|
                    0 <= i < self.pending_transitions@.len()
                        implies (#[trigger] self.pending_transitions@[i]).wf() by {
                    if i != idx {
                        assert(self.pending_transitions@[i] == oldpend[i]);
                    }
                }
            }
        }
        Ok(ret)
    }

    /// Applies a finalized transition's consequences to the canonical
    /// state and extends the history.
    ///
    /// The caller has already taken the transition out of the pending
    /// collection; that removal is what makes finalization one-shot.
    /// The consequences apply to whatever state is canonical now, which
    /// the transition records by carrying its from-state hash.
    fn finalize_transition(&mut self, transition: &StateTransition)
        requires
            old(self).wf(),
        ensures
            final(self).wf(),
            final(self).consensus_rules == old(self).consensus_rules,
            final(self).pending_transitions@ == old(self).pending_transitions@,
            final(self).authenticity_validators@ == old(self).authenticity_validators@,
            match old(self).current_state {
                Some(c) => ({
                    let newm = spec_transition_result(
                        c@,
                        conseq_models(transition.consequences@),
                        TracStateManager::spec_timestamp_at(old(self).state_history@.len() as int),
                    );
                    &&& final(self).current_state matches Some(c2) && c2@ == newm
                    &&& final(self).state_history@.len() == old(self).state_history@.len() + 1
                    &&& final(self).state_history@.last()@ == newm
                    &&& forall|i: int|
                        0 <= i < old(self).state_history@.len()
                            ==> #[trigger] final(self).state_history@[i]
                            == old(self).state_history@[i]
                }),
                None => *final(self) == *old(self),
            },
    {
        let maybe_new: Option<StoryState> = match &self.current_state {
            Some(cur) => Some(self.apply_consequences(cur, &transition.consequences)),
            None => None,
        };
        match maybe_new {
            Some(new_state) => {
                let hist_copy = new_state.duplicate();
                self.current_state = Some(new_state);
                self.state_history.push(hist_copy);
            },
            None => {},
        }
    }

    /// The placeholder state a host may show before any player exists.
    pub fn create_empty_state(&self) -> (r: StoryState)
        ensures
            r.wf(),
            r@ == empty_story_model(),
    {
        let st = StoryState {
            player_id: "empty".to_owned(),
            current_quest_id: "none".to_owned(),
            completed_quests: Vec::new(),
            active_branches: Vec::new(),
            governor_relationships: AssocMap::new(),
            tradition_mastery: AssocMap::new(),
            reputation_scores: AssocMap::new(),
            energy_level: 0,
            aethyr_access: Vec::new(),
            sacred_items: Vec::new(),
            timestamp: 0,
            state_hash: StateHash {
                player_id: "empty".to_owned(),
                quest_id: "none".to_owned(),
                timestamp: 0,
                completed_count: 0,
            },
        };
        proof {
            assert(st.completed_quests.deep_view() =~= Seq::<Seq<char>>::empty());
            assert(st.active_branches.deep_view() =~= Seq::<Seq<char>>::empty());
            assert(st.sacred_items.deep_view() =~= Seq::<Seq<char>>::empty());
            assert(st@ =~= empty_story_model());
        }
        st
    }

    /// Digests a state's identity-relevant fields.
    pub fn calculate_state_hash(&self, state: &StoryState) -> (r: StateHash)
        ensures
            r@ == spec_hash_of(state@),
    {
        state.compute_hash()
    }

    /// Reads a consensus snapshot: no side effects.
    pub fn get_consensus_status(&self) -> (r: ConsensusStatus)
        requires
            self.wf(),
        ensures
            r.has_canonical_state == (self.current_state is Some),
            r.pending_transitions == self.pending_transitions@.len(),
            r.validator_count == self.authenticity_validators@.len(),
            r.consensus_threshold_milli == self.consensus_rules.consensus_threshold,
            r.required_signatures == spec_quorum(
                self.consensus_rules.consensus_threshold as int,
                self.authenticity_validators@.len() as int,
            ),
            r.last_finalized_block == TracStateManager::spec_block_height_at(
                self.state_history@.len() as int,
            ),
    {
        ConsensusStatus {
            has_canonical_state: self.get_current_state().is_some(),
            pending_transitions: self.pending_transitions.len(),
            validator_count: self.authenticity_validators.len(),
            consensus_threshold_milli: self.consensus_rules.consensus_threshold,
            required_signatures: quorum_size(
                self.consensus_rules.consensus_threshold,
                self.authenticity_validators.len(),
            ),
            last_finalized_block: self.get_current_block_height(),
        }
    }

    /// The even weight each validator carries, in thousandths.
    pub open spec fn spec_validator_weight(n: int) -> int {
        if n > 0 {
            1000int / n
        } else {
            0
        }
    }

    /// The table that binds each name to the same weight.
    pub open spec fn weights_of(names: Seq<Seq<char>>, w: i64) -> Map<Seq<char>, i64>
        decreases names.len(),
    {
        if names.len() == 0 {
            Map::<Seq<char>, i64>::empty()
        } else {
            TracStateManager::weights_of(names.drop_last(), w).insert(names.last(), w)
        }
    }

    /// Binds each known validator to an even share of the total weight.
    #[verifier::loop_isolation(false)]
    pub fn get_validator_weights(&self) -> (r: ScoreMap)
        ensures
            r.wf(),
            r@ == TracStateManager::weights_of(
                self.authenticity_validators.deep_view(),
                TracStateManager::spec_validator_weight(
                    self.authenticity_validators@.len() as int,
                ) as i64,
            ),
    {
        let ghost dv = self.authenticity_validators.deep_view();
        let mut r: ScoreMap = AssocMap::new();
        let n = self.authenticity_validators.len();
        if n == 0 {
            proof {
                assert(r@ =~= TracStateManager::weights_of(dv, 0i64));
            }
            return r;
        }
        let w: i64 = (1000u64 / n as u64) as i64;
        let mut i: usize = 0;
        proof {
            assert(dv.subrange(0, 0) =~= Seq::<Seq<char>>::empty());
        }
        while i < n
            invariant
                i <= n,
                r.wf(),
                r@ == TracStateManager::weights_of(dv.subrange(0, i as int), w),
            decreases n - i,
        {
            proof {
                assert(dv.subrange(0, i + 1).drop_last() =~= dv.subrange(0, i as int));
                assert(dv.subrange(0, i + 1).last() == dv[i as int]);
                assert(dv[i as int] == self.authenticity_validators@[i as int]@);
            }
            r.insert(self.authenticity_validators[i].as_str(), w);
            i += 1;
        }
        proof {
            assert(dv.subrange(0, n as int) =~= dv);
        }
        r
    }
}

/// A read-only snapshot of the log's consensus position.
#[derive(Clone, Copy, Debug, PartialEq, Eq, Structural)]
pub struct ConsensusStatus {
    /// Whether a canonical state exists.
    pub has_canonical_state: bool,
    /// How many transitions are pending.
    pub pending_transitions: usize,
    /// How many validators are known.
    pub validator_count: usize,
    /// The quorum fraction, in thousandths.
    pub consensus_threshold_milli: u64,
    /// The signature count a transition needs to finalize.
    pub required_signatures: usize,
    /// The simulated height of the last finalized block.
    pub last_finalized_block: u64,
}

/// Energy safety: a well-formed story state holds its energy in
/// `[0, MAX_ENERGY]`. Consequence application clamps every energy change
/// into that range, so energy stays bounded over any sequence of
/// finalized transitions.
pub proof fn lemma_story_energy_bounded(s: StoryState)
    requires
        s.wf(),
    ensures
        0 <= s@.energy_level <= constants::MAX_ENERGY,
{
}

/// Granting the same item or tier twice leaves the same state as granting
/// it once: item and tier grants are idempotent unions.
pub proof fn lemma_grant_idempotent(m: StoryModel, c: ConsequenceModel)
    requires
        c.consequence_type == ConsequenceType::ItemGain || c.consequence_type
            == ConsequenceType::AethyrAccess,
    ensures
        spec_apply_consequence(spec_apply_consequence(m, c), c) == spec_apply_consequence(m, c),
{
    match c.consequence_type {
        ConsequenceType::ItemGain => {
            strutil::lemma_push_unique_idempotent(m.sacred_items, c.target);
            assert(spec_apply_consequence(spec_apply_consequence(m, c), c) =~= spec_apply_consequence(
                m,
                c,
            ));
        },
        ConsequenceType::AethyrAccess => {
            match strutil::spec_parse_u32(c.target) {
                Some(t) => {
                    strutil::lemma_push_unique_u32_idempotent(m.aethyr_access, t as u32);
                    assert(spec_apply_consequence(spec_apply_consequence(m, c), c)
                        =~= spec_apply_consequence(m, c));
                },
                None => {},
            }
        },
        _ => {},
    }
}

} // verus!
