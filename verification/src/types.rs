use vstd::prelude::*;
use crate::json::{Json, JsonV};
use crate::text::strs_view;

verus! {

/// The kinds of bricks a flow can hold.
#[derive(Debug, Clone, Copy, PartialEq, Eq, Hash, Structural)]
pub enum BrickType {
    OpenAi,
    Nvidia,
    HubSpot,
    Notion,
    Odoo,
    N8n,
    FieldMapping,
    CombineText,
    Conditional,
    RulesEngine,
}

/// The name of a brick type, as the variant is written.
pub open spec fn brick_type_name(t: BrickType) -> Seq<char> {
    match t {
        BrickType::OpenAi => "OpenAi"@,
        BrickType::Nvidia => "Nvidia"@,
        BrickType::HubSpot => "HubSpot"@,
        BrickType::Notion => "Notion"@,
        BrickType::Odoo => "Odoo"@,
        BrickType::N8n => "N8n"@,
        BrickType::FieldMapping => "FieldMapping"@,
        BrickType::CombineText => "CombineText"@,
        BrickType::Conditional => "Conditional"@,
        BrickType::RulesEngine => "RulesEngine"@,
    }
}

impl BrickType {
    /// Returns the string representation of the brick type.
    pub fn as_str(&self) -> (s: &'static str)
        ensures
            s@ == brick_type_name(*self),
    {
        match self {
            BrickType::OpenAi => "OpenAi",
            BrickType::Nvidia => "Nvidia",
            BrickType::HubSpot => "HubSpot",
            BrickType::Notion => "Notion",
            BrickType::Odoo => "Odoo",
            BrickType::N8n => "N8n",
            BrickType::FieldMapping => "FieldMapping",
            BrickType::CombineText => "CombineText",
            BrickType::Conditional => "Conditional",
            BrickType::RulesEngine => "RulesEngine",
        }
    }
}


/// The state of a flow execution.
#[derive(Debug, Clone, PartialEq, Eq, Structural)]
pub enum ExecutionStatus {
    Pending,
    Running,
    Completed,
    Failed,
}

/// A brick in a flow, with its configuration.
#[derive(Debug)]
pub struct BrickConfig {
    pub brick_type: BrickType,
    pub config: Json,
}

/// A flow: bricks run in order. Times are microseconds since the Unix epoch.
#[derive(Debug)]
pub struct Flow {
    pub id: String,
    pub name: String,
    pub description: Option<String>,
    pub bricks: Vec<BrickConfig>,
    pub active: bool,
    pub created_at: i64,
    pub updated_at: i64,
}

/// The record of one run of a flow. Times are microseconds since the Unix epoch.
#[derive(Debug)]
pub struct FlowExecution {
    pub flow_id: String,
    pub execution_id: String,
    pub status: ExecutionStatus,
    pub started_at: i64,
    pub completed_at: Option<i64>,
    pub input_payload: Json,
    pub output_payload: Option<Json>,
    pub error: Option<String>,
}

/// The daily and monthly limits of a brick type, and its usage so far.
#[derive(Debug, Clone, Copy)]
pub struct Quota {
    pub brick_type: BrickType,
    pub daily_limit: u64,
    pub monthly_limit: Option<u64>,
    pub current_daily_usage: u64,
    pub current_monthly_usage: Option<u64>,
}

/// How a mapping rule moves values.
#[derive(Debug, Clone, Copy, PartialEq, Eq, Structural)]
pub enum MappingDirection {
    Forward,
    Backward,
    Bidirectional,
}

impl Default for MappingDirection {
    fn default() -> (d: Self)
        ensures
            d == MappingDirection::Forward,
    {
        MappingDirection::Forward
    }
}

/// How several source values become one.
#[derive(Debug, Clone, Copy, PartialEq, Eq, Structural)]
pub enum MergeStrategy {
    Concat,
    MergeObject,
    Array,
    First,
    Last,
}

/// How one source value goes to several targets.
#[derive(Debug, Clone, Copy, PartialEq, Eq, Structural)]
pub enum SplitStrategy {
    Copy,
    Extract,
    TransformEach,
}

/// A change applied to a mapped value.
#[derive(Debug)]
pub enum TransformType {
    StringConcat { separator: String },
    NumberAdd,
    NumberMultiply,
    StringToUpper,
    StringToLower,
    Conditional { condition: String, true_value: Json, false_value: Json },
}

/// The mathematical value of a transform.
pub enum TransformV {
    StringConcat(Seq<char>),
    NumberAdd,
    NumberMultiply,
    StringToUpper,
    StringToLower,
    Conditional(Seq<char>, JsonV, JsonV),
}

impl View for TransformType {
    type V = TransformV;

    open spec fn view(&self) -> TransformV {
        match self {
            TransformType::StringConcat { separator } => TransformV::StringConcat(separator@),
            TransformType::NumberAdd => TransformV::NumberAdd,
            TransformType::NumberMultiply => TransformV::NumberMultiply,
            TransformType::StringToUpper => TransformV::StringToUpper,
            TransformType::StringToLower => TransformV::StringToLower,
            TransformType::Conditional { condition, true_value, false_value } => TransformV::Conditional(
                condition@,
                true_value@,
                false_value@,
            ),
        }
    }
}

/// The empty path, the default of a rule's single paths.
pub fn default_single_path() -> (s: String)
    ensures
        s@ == Seq::<char>::empty(),
{
    String::new()
}

/// A rule that maps values from a source document into a target document.
#[derive(Debug)]
pub struct MappingRule {
    pub source_path: String,
    pub target_path: String,
    pub source_paths: Vec<String>,
    pub target_paths: Vec<String>,
    pub direction: MappingDirection,
    pub transform: Option<TransformType>,
    pub merge_strategy: Option<MergeStrategy>,
    pub split_strategy: Option<SplitStrategy>,
}

/// The mathematical value of a mapping rule.
pub struct MappingRuleV {
    pub source_path: Seq<char>,
    pub target_path: Seq<char>,
    pub source_paths: Seq<Seq<char>>,
    pub target_paths: Seq<Seq<char>>,
    pub direction: MappingDirection,
    pub transform: Option<TransformV>,
    pub merge_strategy: Option<MergeStrategy>,
    pub split_strategy: Option<SplitStrategy>,
}

impl View for MappingRule {
    type V = MappingRuleV;

    open spec fn view(&self) -> MappingRuleV {
        MappingRuleV {
            source_path: self.source_path@,
            target_path: self.target_path@,
            source_paths: strs_view(self.source_paths@),
            target_paths: strs_view(self.target_paths@),
            direction: self.direction,
            transform: match self.transform {
                Some(t) => Some(t@),
                None => None,
            },
            merge_strategy: self.merge_strategy,
            split_strategy: self.split_strategy,
        }
    }
}

/// A comparison in a rule condition.
#[derive(Debug, Clone, Copy, PartialEq, Eq, Structural)]
pub enum Operator {
    Equals,
    NotEquals,
    GreaterThan,
    LessThan,
    GreaterThanOrEqual,
    LessThanOrEqual,
    Contains,
    StartsWith,
    EndsWith,
    Regex,
    In,
    NotIn,
    IsNull,
    IsNotNull,
}

/// A condition over an input document.
#[derive(Debug)]
pub enum RuleCondition {
    Field { path: String, operator: Operator, value: Json },
    And { conditions: Vec<RuleCondition> },
    Or { conditions: Vec<RuleCondition> },
    Not { condition: Box<RuleCondition> },
}

/// The mathematical value of a rule condition.
pub enum ConditionV {
    Field(Seq<char>, Operator, JsonV),
    And(Seq<ConditionV>),
    Or(Seq<ConditionV>),
    Not(Box<ConditionV>),
}

pub open spec fn condition_view(c: RuleCondition) -> ConditionV
    decreases c,
{
    match c {
        RuleCondition::Field { path, operator, value } => ConditionV::Field(path@, operator, value@),
        RuleCondition::And { conditions } => ConditionV::And(
            Seq::new(
                conditions@.len(),
                |i: int|
                    if 0 <= i < conditions@.len() {
                        condition_view(conditions@[i])
                    } else {
                        ConditionV::And(Seq::empty())
                    },
            ),
        ),
        RuleCondition::Or { conditions } => ConditionV::Or(
            Seq::new(
                conditions@.len(),
                |i: int|
                    if 0 <= i < conditions@.len() {
                        condition_view(conditions@[i])
                    } else {
                        ConditionV::And(Seq::empty())
                    },
            ),
        ),
        RuleCondition::Not { condition } => ConditionV::Not(Box::new(condition_view(*condition))),
    }
}

impl View for RuleCondition {
    type V = ConditionV;

    open spec fn view(&self) -> ConditionV {
        condition_view(*self)
    }
}

/// What a rule does when its condition holds.
#[derive(Debug)]
pub enum RuleAction {
    SetField { path: String, value: Json },
    Transform { transform: TransformType },
    Branch { flow_id: String },
    SkipBricks { count: usize },
}

/// The mathematical value of a rule action.
pub enum ActionV {
    SetField(Seq<char>, JsonV),
    Transform(TransformV),
    Branch(Seq<char>),
    SkipBricks(usize),
}

impl View for RuleAction {
    type V = ActionV;

    open spec fn view(&self) -> ActionV {
        match self {
            RuleAction::SetField { path, value } => ActionV::SetField(path@, value@),
            RuleAction::Transform { transform } => ActionV::Transform(transform@),
            RuleAction::Branch { flow_id } => ActionV::Branch(flow_id@),
            RuleAction::SkipBricks { count } => ActionV::SkipBricks(*count),
        }
    }
}

/// The views of a sequence of actions.
pub open spec fn actions_view(s: Seq<RuleAction>) -> Seq<ActionV> {
    Seq::new(s.len(), |i: int| s[i]@)
}

/// A named condition with the actions to run when it holds.
#[derive(Debug)]
pub struct Rule {
    pub name: String,
    pub condition: RuleCondition,
    pub actions: Vec<RuleAction>,
}

} // verus!
