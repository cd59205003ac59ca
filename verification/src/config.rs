//! The service's settings: what the environment and a deployment's files say,
//! and what holds where they say nothing.

use crate::json::{json_list, json_member, parse_json, text_at};
use crate::text::{same_text, split_list};
use serde_json::Value;
use vstd::prelude::*;
use vstd::string::*;

verus! {

use crate::json::{json_of, json_tree, json_trees, list_value, member, text_in, JsonTree};
use crate::text::listed;

/// The title of the validator that guards escrows.
pub const ESCROW_VALIDATOR: &'static str = "milestone_escrow.milestone_escrow.spend";

/// The title of the validator that lets receipts be minted.
pub const RECEIPT_VALIDATOR: &'static str = "milestone_receipt.milestone_receipt.mint";

/// The settings in use.
#[derive(Debug, Clone, PartialEq, Eq)]
pub struct Config {
    pub blockfrost_project_id: String,
    pub bind_addr: String,
    pub frontend_origin: String,
    pub escrow_address: String,
    pub receipt_policy_id: String,
    pub escrow_compiled_code: String,
    pub receipt_compiled_code: String,
    pub grants_meta_path: String,
    pub ignored_grant_ids: Vec<String>,
}

/// What a [`Config`] holds.
#[verifier::ext_equal]
pub struct ConfigView {
    pub blockfrost_project_id: Seq<char>,
    pub bind_addr: Seq<char>,
    pub frontend_origin: Seq<char>,
    pub escrow_address: Seq<char>,
    pub receipt_policy_id: Seq<char>,
    pub escrow_compiled_code: Seq<char>,
    pub receipt_compiled_code: Seq<char>,
    pub grants_meta_path: Seq<char>,
    pub ignored_grant_ids: Seq<Seq<char>>,
}

impl View for Config {
    type V = ConfigView;

    open spec fn view(&self) -> ConfigView {
        ConfigView {
            blockfrost_project_id: self.blockfrost_project_id@,
            bind_addr: self.bind_addr@,
            frontend_origin: self.frontend_origin@,
            escrow_address: self.escrow_address@,
            receipt_policy_id: self.receipt_policy_id@,
            escrow_compiled_code: self.escrow_compiled_code@,
            receipt_compiled_code: self.receipt_compiled_code@,
            grants_meta_path: self.grants_meta_path@,
            ignored_grant_ids: self.ignored_grant_ids@.map_values(|id: String| id@),
        }
    }
}

impl ConfigView {
    /// Whether a grant is to be left out.
    pub open spec fn ignores(self, grant_id: Seq<char>) -> bool {
        self.ignored_grant_ids.contains(grant_id)
    }
}

/// What the environment's variables hold, where they are set.
#[derive(Debug, Clone, PartialEq, Eq)]
pub struct Environment {
    pub blockfrost_project_id: Option<String>,
    pub bind_addr: Option<String>,
    pub frontend_origin: Option<String>,
    pub deploy_dir: Option<String>,
    pub grants_meta_path: Option<String>,
    pub ignored_grant_ids: Option<String>,
}

/// A validator of a blueprint, with what is given as text of it.
#[derive(Debug, Clone, PartialEq, Eq)]
pub struct Validator {
    pub title: Option<String>,
    pub compiled_code: Option<String>,
}

/// What a deployment's files say.
#[derive(Debug, Clone, PartialEq, Eq)]
pub struct Deployment {
    pub escrow_address: Option<String>,
    pub receipt_policy_id: Option<String>,
    pub validators: Vec<Validator>,
}

/// The setting that is missing.
#[derive(Debug, Clone, Copy, PartialEq, Eq, Structural)]
pub enum ConfigError {
    BlockfrostProjectId,
    EscrowAddress,
    ReceiptPolicyId,
    EscrowCode,
    ReceiptCode,
}

/// The text of an optional one, where there is one.
pub open spec fn text_of(text: Option<String>) -> Option<Seq<char>> {
    match text {
        Some(given) => Some(given@),
        None => None,
    }
}

/// A text, or the one that stands for none.
pub open spec fn text_or(text: Option<String>, default: Seq<char>) -> Seq<char> {
    match text {
        Some(given) => given@,
        None => default,
    }
}

fn given_or(text: &Option<String>, default: &str) -> (chosen: String)
    ensures
        chosen@ == text_or(*text, default@),
{
    match text {
        Some(given) => given.clone(),
        None => default.to_owned(),
    }
}

/// Whether `place` is the first validator with a title.
pub open spec fn is_first_titled(validators: Seq<Validator>, title: Seq<char>, place: int) -> bool {
    &&& 0 <= place < validators.len()
    &&& text_of(validators[place].title) == Some(title)
    &&& forall|i: int| 0 <= i < place ==> text_of(#[trigger] validators[i].title) != Some(title)
}

/// The code of the first validator with a title, where there is one and it has
/// code.
pub open spec fn code_for(validators: Seq<Validator>, title: Seq<char>) -> Option<Seq<char>> {
    if exists|place: int| is_first_titled(validators, title, place) {
        text_of(validators[choose|place: int| is_first_titled(validators, title, place)].compiled_code)
    } else {
        None
    }
}

/// The code of the first validator with a title.
pub fn compiled_code_for(validators: &[Validator], title: &str) -> (code: Option<String>)
    ensures
        text_of(code) == code_for(validators@, title@),
{
    for i in 0..validators.len()
        invariant
            forall|j: int| 0 <= j < i ==> text_of(#[trigger] validators@[j].title) != Some(title@),
    {
        match &validators[i].title {
            Some(given) => {
                if same_text(given, title) {
                    assert(is_first_titled(validators@, title@, i as int));
                    proof {
                        let place = choose|place: int| is_first_titled(validators@, title@, place);
                        if place < i {
                            assert(text_of(validators@[place].title) != Some(title@));
                        }
                        if i < place {
                            assert(text_of(validators@[i as int].title) != Some(title@));
                        }
                    }
                    return match &validators[i].compiled_code {
                        Some(code) => Some(code.clone()),
                        None => None,
                    };
                }
            },
            None => {},
        }
    }
    None
}

/// The validators that a blueprint lists.
pub open spec fn validators_in(tree: JsonTree) -> Seq<JsonTree> {
    match member(tree, "validators"@) {
        Some(value) => match list_value(value) {
            Some(items) => items,
            None => seq![],
        },
        None => seq![],
    }
}

/// The validators that a blueprint lists.
fn read_validators(blueprint: &Value) -> (validators: Vec<Validator>)
    ensures
        validators@.len() == validators_in(json_tree(*blueprint)).len(),
        forall|i: int|
            0 <= i < validators@.len() ==> text_of((#[trigger] validators@[i]).title) == text_in(
                validators_in(json_tree(*blueprint))[i],
                "title"@,
            ) && text_of(validators@[i].compiled_code) == text_in(
                validators_in(json_tree(*blueprint))[i],
                "compiledCode"@,
            ),
{
    let mut validators: Vec<Validator> = Vec::new();
    let listed = match json_member(blueprint, "validators") {
        Some(value) => match json_list(value) {
            Some(items) => items,
            None => return validators,
        },
        None => return validators,
    };
    let ghost trees = validators_in(json_tree(*blueprint));
    assert(trees == json_trees(listed@));
    for i in 0..listed.len()
        invariant
            trees == json_trees(listed@),
            validators@.len() == i,
            forall|j: int|
                0 <= j < i ==> text_of((#[trigger] validators@[j]).title) == text_in(trees[j], "title"@) && text_of(
                    validators@[j].compiled_code,
                ) == text_in(trees[j], "compiledCode"@),
    {
        assert(trees[i as int] == json_tree(listed@[i as int]));
        validators.push(
            Validator { title: text_at(&listed[i], "title"), compiled_code: text_at(&listed[i], "compiledCode") },
        );
    }
    validators
}

/// What a deployment's two files say: the parameters, and the blueprint with
/// the scripts.
pub fn read_deployment(params: &[u8], blueprint: &[u8]) -> (read: Result<Deployment, serde_json::Error>)
    ensures
        read is Ok <==> json_of(params@) is Some && json_of(blueprint@) is Some,
        read matches Ok(deployment) ==> {
            &&& text_of(deployment.escrow_address) == text_in(json_of(params@)->0, "escrow_address"@)
            &&& text_of(deployment.receipt_policy_id) == text_in(json_of(params@)->0, "receipt_policy_id"@)
            &&& deployment.validators@.len() == validators_in(json_of(blueprint@)->0).len()
            &&& forall|i: int|
                0 <= i < deployment.validators@.len() ==> text_of((#[trigger] deployment.validators@[i]).title)
                    == text_in(validators_in(json_of(blueprint@)->0)[i], "title"@) && text_of(
                    deployment.validators@[i].compiled_code,
                ) == text_in(validators_in(json_of(blueprint@)->0)[i], "compiledCode"@)
        },
{
    let params = match parse_json(params) {
        Ok(value) => value,
        Err(error) => return Err(error),
    };
    let blueprint = match parse_json(blueprint) {
        Ok(value) => value,
        Err(error) => return Err(error),
    };
    Ok(
        Deployment {
            escrow_address: text_at(&params, "escrow_address"),
            receipt_policy_id: text_at(&params, "receipt_policy_id"),
            validators: read_validators(&blueprint),
        },
    )
}

/// The first setting that is missing from a deployment's parameters.
pub open spec fn first_missing(tree: JsonTree) -> Option<ConfigError> {
    if text_in(tree, "escrow_address"@) is None {
        Some(ConfigError::EscrowAddress)
    } else if text_in(tree, "receipt_policy_id"@) is None {
        Some(ConfigError::ReceiptPolicyId)
    } else {
        None
    }
}

/// The first setting that is missing from a deployment's parameters, which
/// counts before anything about the blueprint.
pub fn missing_param(params: &[u8]) -> (missing: Result<Option<ConfigError>, serde_json::Error>)
    ensures
        missing is Ok <==> json_of(params@) is Some,
        missing matches Ok(first) ==> first == first_missing(json_of(params@)->0),
{
    let value = match parse_json(params) {
        Ok(value) => value,
        Err(error) => return Err(error),
    };
    if text_at(&value, "escrow_address").is_none() {
        Ok(Some(ConfigError::EscrowAddress))
    } else if text_at(&value, "receipt_policy_id").is_none() {
        Ok(Some(ConfigError::ReceiptPolicyId))
    } else {
        Ok(None)
    }
}

/// The settings that an environment and a deployment make up, or the first one
/// that is missing.
pub open spec fn config_of(environment: Environment, deployment: Deployment) -> Result<ConfigView, ConfigError> {
    match (
        text_of(environment.blockfrost_project_id),
        text_of(deployment.escrow_address),
        text_of(deployment.receipt_policy_id),
        code_for(deployment.validators@, ESCROW_VALIDATOR@),
        code_for(deployment.validators@, RECEIPT_VALIDATOR@),
    ) {
        (None, _, _, _, _) => Err(ConfigError::BlockfrostProjectId),
        (_, None, _, _, _) => Err(ConfigError::EscrowAddress),
        (_, _, None, _, _) => Err(ConfigError::ReceiptPolicyId),
        (_, _, _, None, _) => Err(ConfigError::EscrowCode),
        (_, _, _, _, None) => Err(ConfigError::ReceiptCode),
        (Some(project_id), Some(address), Some(policy), Some(escrow_code), Some(receipt_code)) => Ok(
            ConfigView {
                blockfrost_project_id: project_id,
                bind_addr: text_or(environment.bind_addr, "127.0.0.1:3000"@),
                frontend_origin: text_or(environment.frontend_origin, "http://localhost:4321"@),
                escrow_address: address,
                receipt_policy_id: policy,
                escrow_compiled_code: escrow_code,
                receipt_compiled_code: receipt_code,
                grants_meta_path: text_or(environment.grants_meta_path, "grants_meta.json"@),
                ignored_grant_ids: listed(text_or(environment.ignored_grant_ids, ""@)),
            },
        ),
    }
}

impl Environment {
    /// The directory that holds the deployment's files.
    pub fn deploy_directory(&self) -> (directory: String)
        ensures
            directory@ == text_or(self.deploy_dir, "../onchain/deploy/testnet-v4"@),
    {
        given_or(&self.deploy_dir, "../onchain/deploy/testnet-v4")
    }
}

impl Config {
    /// The settings that an environment and a deployment make up.
    pub fn from_parts(environment: &Environment, deployment: &Deployment) -> (config: Result<Config, ConfigError>)
        ensures
            match config {
                Ok(made) => config_of(*environment, *deployment) == Ok::<ConfigView, ConfigError>(made@),
                Err(error) => config_of(*environment, *deployment) == Err::<ConfigView, ConfigError>(error),
            },
    {
        let blockfrost_project_id = match &environment.blockfrost_project_id {
            Some(given) => given.clone(),
            None => return Err(ConfigError::BlockfrostProjectId),
        };
        let escrow_address = match &deployment.escrow_address {
            Some(given) => given.clone(),
            None => return Err(ConfigError::EscrowAddress),
        };
        let receipt_policy_id = match &deployment.receipt_policy_id {
            Some(given) => given.clone(),
            None => return Err(ConfigError::ReceiptPolicyId),
        };
        let escrow_compiled_code = match compiled_code_for(deployment.validators.as_slice(), ESCROW_VALIDATOR) {
            Some(code) => code,
            None => return Err(ConfigError::EscrowCode),
        };
        let receipt_compiled_code = match compiled_code_for(deployment.validators.as_slice(), RECEIPT_VALIDATOR) {
            Some(code) => code,
            None => return Err(ConfigError::ReceiptCode),
        };
        let config = Config {
            blockfrost_project_id,
            bind_addr: given_or(&environment.bind_addr, "127.0.0.1:3000"),
            frontend_origin: given_or(&environment.frontend_origin, "http://localhost:4321"),
            escrow_address,
            receipt_policy_id,
            escrow_compiled_code,
            receipt_compiled_code,
            grants_meta_path: given_or(&environment.grants_meta_path, "grants_meta.json"),
            ignored_grant_ids: split_list(&given_or(&environment.ignored_grant_ids, "")),
        };
        Ok(config)
    }

    /// Whether a grant is to be left out.
    pub fn ignores(&self, grant_id: &str) -> (ignored: bool)
        ensures
            ignored == self@.ignores(grant_id@),
    {
        let ghost ids = self@.ignored_grant_ids;
        for i in 0..self.ignored_grant_ids.len()
            invariant
                ids == self.ignored_grant_ids@.map_values(|id: String| id@),
                forall|j: int| 0 <= j < i ==> #[trigger] ids[j] != grant_id@,
        {
            if same_text(&self.ignored_grant_ids[i], grant_id) {
                assert(ids[i as int] == grant_id@);
                return true;
            }
        }
        false
    }
}

/// What is known of the settings is what their fields hold; a grant is left
/// out exactly where its identifier is one of those listed.
pub proof fn lemma_config_shows_its_fields(config: Config, grant_id: Seq<char>)
    ensures
        config@.blockfrost_project_id == config.blockfrost_project_id@,
        config@.bind_addr == config.bind_addr@,
        config@.frontend_origin == config.frontend_origin@,
        config@.escrow_address == config.escrow_address@,
        config@.receipt_policy_id == config.receipt_policy_id@,
        config@.escrow_compiled_code == config.escrow_compiled_code@,
        config@.receipt_compiled_code == config.receipt_compiled_code@,
        config@.grants_meta_path == config.grants_meta_path@,
        config@.ignored_grant_ids.len() == config.ignored_grant_ids@.len(),
        config@.ignores(grant_id) <==> exists|i: int|
            0 <= i < config.ignored_grant_ids@.len() && (#[trigger] config.ignored_grant_ids@[i])@ == grant_id,
{
    let ids = config@.ignored_grant_ids;
    if ids.contains(grant_id) {
        let i = choose|i: int| 0 <= i < ids.len() && ids[i] == grant_id;
        assert(config.ignored_grant_ids@[i]@ == grant_id);
    }
    if exists|i: int| 0 <= i < config.ignored_grant_ids@.len() && (#[trigger] config.ignored_grant_ids@[i])@ == grant_id {
        let i = choose|i: int|
            0 <= i < config.ignored_grant_ids@.len() && (#[trigger] config.ignored_grant_ids@[i])@ == grant_id;
        assert(ids[i] == grant_id);
    }
}

/// The code under a title is that of the first validator with the title, and
/// there is none where that one has none, whatever comes after it.
pub proof fn lemma_first_titled_counts(validators: Seq<Validator>, title: Seq<char>, place: int)
    requires
        0 <= place < validators.len(),
        validators[place].title matches Some(given) && given@ == title,
        forall|i: int|
            0 <= i < place ==> !((#[trigger] validators[i]).title matches Some(given) && given@ == title),
    ensures
        match validators[place].compiled_code {
            Some(code) => code_for(validators, title) == Some(code@),
            None => code_for(validators, title) is None,
        },
{
    assert forall|i: int| 0 <= i < place implies text_of(#[trigger] validators[i].title) != Some(title) by {
        assert(!(validators[i].title matches Some(given) && given@ == title));
    }
    assert(is_first_titled(validators, title, place));
    let chosen = choose|chosen: int| is_first_titled(validators, title, chosen);
    if chosen < place {
        assert(text_of(validators[chosen].title) != Some(title));
    }
    if place < chosen {
        assert(text_of(validators[place].title) != Some(title));
    }
}

/// There is no code under a title that no validator has.
pub proof fn lemma_no_code(validators: Seq<Validator>, title: Seq<char>)
    requires
        forall|i: int|
            0 <= i < validators.len() ==> !((#[trigger] validators[i]).title matches Some(given) && given@ == title),
    ensures
        code_for(validators, title) is None,
{
    if exists|place: int| is_first_titled(validators, title, place) {
        let place = choose|place: int| is_first_titled(validators, title, place);
        assert(text_of(validators[place].title) == Some(title));
        assert(!(validators[place].title matches Some(given) && given@ == title));
    }
}

/// The settings are made up exactly where the project, the escrow's address,
/// the receipt policy and the code of both validators are given; they are used
/// as given. Where the environment sets nothing else, what stands for it is
/// used. The first of them that is missing is told.
pub proof fn lemma_config_of(environment: Environment, deployment: Deployment)
    ensures
        ({
            let escrow_code = code_for(deployment.validators@, "milestone_escrow.milestone_escrow.spend"@);
            let receipt_code = code_for(deployment.validators@, "milestone_receipt.milestone_receipt.mint"@);
            match config_of(environment, deployment) {
                Ok(config) => {
                    &&& environment.blockfrost_project_id matches Some(given) && config.blockfrost_project_id == given@
                    &&& deployment.escrow_address matches Some(given) && config.escrow_address == given@
                    &&& deployment.receipt_policy_id matches Some(given) && config.receipt_policy_id == given@
                    &&& escrow_code == Some(config.escrow_compiled_code)
                    &&& receipt_code == Some(config.receipt_compiled_code)
                    &&& match environment.bind_addr {
                        Some(given) => config.bind_addr == given@,
                        None => config.bind_addr == "127.0.0.1:3000"@,
                    }
                    &&& match environment.frontend_origin {
                        Some(given) => config.frontend_origin == given@,
                        None => config.frontend_origin == "http://localhost:4321"@,
                    }
                    &&& match environment.grants_meta_path {
                        Some(given) => config.grants_meta_path == given@,
                        None => config.grants_meta_path == "grants_meta.json"@,
                    }
                    &&& match environment.ignored_grant_ids {
                        Some(given) => config.ignored_grant_ids == listed(given@),
                        None => config.ignored_grant_ids == listed(""@),
                    }
                },
                Err(error) => match error {
                    ConfigError::BlockfrostProjectId => environment.blockfrost_project_id is None,
                    ConfigError::EscrowAddress => environment.blockfrost_project_id is Some
                        && deployment.escrow_address is None,
                    ConfigError::ReceiptPolicyId => environment.blockfrost_project_id is Some
                        && deployment.escrow_address is Some && deployment.receipt_policy_id is None,
                    ConfigError::EscrowCode => environment.blockfrost_project_id is Some
                        && deployment.escrow_address is Some && deployment.receipt_policy_id is Some && escrow_code is None,
                    ConfigError::ReceiptCode => environment.blockfrost_project_id is Some
                        && deployment.escrow_address is Some && deployment.receipt_policy_id is Some && escrow_code is Some
                        && receipt_code is None,
                },
            }
        }),
{
}

/// Of a deployment's parameters the escrow's address counts as missing before
/// the receipt policy; what is no text counts as missing.
pub proof fn lemma_first_missing(tree: JsonTree)
    ensures
        ({
            let address = tree matches JsonTree::Object(members) && members.contains_key("escrow_address"@)
                && members["escrow_address"@] is Text;
            let policy = tree matches JsonTree::Object(members) && members.contains_key("receipt_policy_id"@)
                && members["receipt_policy_id"@] is Text;
            &&& first_missing(tree) == Some(ConfigError::EscrowAddress) <==> !address
            &&& first_missing(tree) == Some(ConfigError::ReceiptPolicyId) <==> address && !policy
            &&& first_missing(tree) is None <==> address && policy
        }),
{
}

/// The validators of a blueprint are the items of the list under that name, in
/// order; there are none where there is no such list.
pub proof fn lemma_validators_in(tree: JsonTree, items: Seq<JsonTree>)
    ensures
        (tree matches JsonTree::Object(members) && members.contains_key("validators"@) && members["validators"@]
            == JsonTree::List(items)) ==> validators_in(tree) == items,
        !(tree matches JsonTree::Object(members) && members.contains_key("validators"@)
            && members["validators"@] is List) ==> validators_in(tree).len() == 0,
{
}

} // verus!
