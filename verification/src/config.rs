//! Settings, and the rules that make a setting valid.

use vstd::prelude::*;
use vstd::string::*;

use crate::text;

pub mod laws;

verus! {

pub const OPENAI_PROVIDER_ID: &'static str = "openai";

pub const AMAZON_BEDROCK_PROVIDER_ID: &'static str = "amazon-bedrock";

pub const AMAZON_BEDROCK_RUNTIME_PROVIDER_ID: &'static str = "amazon-bedrock-runtime";

pub const OLLAMA_OSS_PROVIDER_ID: &'static str = "ollama";

pub const LMSTUDIO_OSS_PROVIDER_ID: &'static str = "lmstudio";

pub const LEGACY_OLLAMA_CHAT_PROVIDER_ID: &'static str = "ollama-chat";

/// The default limit on project instructions, in bytes.
pub const DEFAULT_PROJECT_DOC_MAX_BYTES: usize = 32_768;

/// The workspaces that a login is restricted to.
#[derive(Debug, PartialEq, Eq)]
pub enum ForcedChatgptWorkspaceIds {
    Single(String),
    Multiple(Vec<String>),
}

/// Why a list of workspaces written into one string is refused.
pub open spec fn comma_separated_text() -> Seq<char> {
    "forced_chatgpt_workspace_id must be a single workspace ID string or a TOML list of strings; comma-separated strings are not supported. Use `forced_chatgpt_workspace_id = [\"123e4567-e89b-42d3-a456-426614174000\", \"123e4567-e89b-42d3-a456-426614174001\"]` instead."@
}

impl ForcedChatgptWorkspaceIds {
    /// The workspace that a single string names. A string with a comma is a
    /// list in the wrong place, and is refused.
    pub fn from_single(value: String) -> (ids: Result<Self, String>)
        ensures
            match ids {
                Ok(ids) => !value@.contains(',') && ids == ForcedChatgptWorkspaceIds::Single(value),
                Err(message) => value@.contains(',') && message@ == comma_separated_text(),
            },
    {
        let chars = text::chars_of(value.as_str());
        let mut i: usize = 0;
        while i < chars.len()
            invariant
                i <= chars@.len(),
                chars@ == value@,
                forall|k: int| 0 <= k < i ==> chars@[k] != ',',
            decreases chars@.len() - i,
        {
            if chars[i] == ',' {
                assert(value@[i as int] == ',');
                return Err(
                    "forced_chatgpt_workspace_id must be a single workspace ID string or a TOML list of strings; comma-separated strings are not supported. Use `forced_chatgpt_workspace_id = [\"123e4567-e89b-42d3-a456-426614174000\", \"123e4567-e89b-42d3-a456-426614174001\"]` instead.".to_owned(),
                );
            }
            i = i + 1;
        }
        Ok(ForcedChatgptWorkspaceIds::Single(value))
    }

    /// The workspaces as a list.
    pub fn into_vec(self) -> (ids: Vec<String>)
        ensures
            match self {
                ForcedChatgptWorkspaceIds::Single(value) => ids@ == seq![value],
                ForcedChatgptWorkspaceIds::Multiple(values) => ids@ == values@,
            },
    {
        match self {
            ForcedChatgptWorkspaceIds::Single(value) => {
                let mut ids: Vec<String> = Vec::new();
                ids.push(value);
                assert(ids@ == seq![value]);
                ids
            },
            ForcedChatgptWorkspaceIds::Multiple(values) => values,
        }
    }
}

/// Features that the orchestrator owns.
#[derive(Clone, Copy, Debug, PartialEq, Eq, Structural)]
pub struct OrchestratorToml {
    pub skills: Option<OrchestratorFeatureToml>,
    pub mcp: Option<OrchestratorFeatureToml>,
}

/// One feature that the orchestrator owns.
#[derive(Clone, Copy, Debug, PartialEq, Eq, Structural)]
pub struct OrchestratorFeatureToml {
    pub enabled: Option<bool>,
}

/// Where threads are stored.
#[derive(Debug, PartialEq, Eq)]
pub enum ThreadStoreToml {
    Local {},
    InMemory { id: String },
}

/// Policy instructions that go into the prompt of the guardian.
#[derive(Debug, PartialEq, Eq)]
pub struct AutoReviewToml {
    pub policy: Option<String>,
}

/// The audio devices in use.
#[derive(Debug, PartialEq, Eq)]
pub struct RealtimeAudioConfig {
    pub microphone: Option<String>,
    pub speaker: Option<String>,
}

/// What a realtime session is for.
#[derive(Clone, Copy, Debug, PartialEq, Eq, Structural)]
pub enum RealtimeWsMode {
    Conversational,
    Transcription,
}

/// How a realtime session is carried.
#[derive(Clone, Copy, Debug, PartialEq, Eq, Structural)]
pub enum RealtimeTransport {
    WebRtc,
    Websocket,
}

/// The audio devices that a user prefers.
#[derive(Debug, PartialEq, Eq)]
pub struct RealtimeAudioToml {
    pub microphone: Option<String>,
    pub speaker: Option<String>,
}

/// The realtime settings that are in force.
#[derive(Debug, PartialEq, Eq)]
pub struct RealtimeConfig {
    pub version: String,
    pub session_type: RealtimeWsMode,
    pub transport: RealtimeTransport,
    pub voice: Option<String>,
}

/// The realtime settings of a configuration file.
#[derive(Debug, PartialEq, Eq)]
pub struct RealtimeToml {
    pub version: Option<String>,
    pub session_type: Option<RealtimeWsMode>,
    pub transport: Option<RealtimeTransport>,
    pub voice: Option<String>,
}

/// The tools that a configuration file sets up. The settings of the web search
/// are kept as they were written.
#[derive(Debug, PartialEq, Eq)]
pub struct ToolsToml {
    pub web_search: Option<String>,
    pub experimental_request_user_input: Option<ExperimentalRequestUserInput>,
    pub update_plan: Option<UpdatePlanToolConfig>,
}

/// How agents may spawn others.
#[derive(Debug, PartialEq, Eq)]
pub struct AgentsToml {
    /// Whether there are tools for it. There are, where nothing is set.
    pub enabled: Option<bool>,
    pub max_concurrent_threads_per_session: Option<usize>,
    /// How deep agents may nest.
    pub max_depth: Option<i32>,
    pub default_subagent_model: Option<String>,
    pub default_subagent_reasoning_effort: Option<String>,
    /// Kept for old files; it has no effect.
    pub job_max_runtime_seconds: Option<u64>,
    /// Whether the model is told of an interrupted turn.
    pub interrupt_message: Option<bool>,
    /// The roles, by their names.
    pub roles: Vec<(String, AgentRoleToml)>,
}

/// A role that an agent can have.
#[derive(Debug, PartialEq, Eq)]
pub struct AgentRoleToml {
    pub description: Option<String>,
    /// The file with the settings of the role.
    pub config_file: Option<String>,
    pub nickname_candidates: Option<Vec<String>>,
}

/// Whether the user may be asked for input.
#[derive(Clone, Copy, Debug, PartialEq, Eq, Structural)]
pub struct ExperimentalRequestUserInput {
    pub enabled: bool,
}

impl Default for ExperimentalRequestUserInput {
    /// Asking is allowed where nothing is said.
    fn default() -> (r: Self)
        ensures
            r.enabled,
    {
        ExperimentalRequestUserInput { enabled: true }
    }
}

/// Whether the plan tool is offered.
#[derive(Clone, Copy, Debug, PartialEq, Eq, Structural)]
pub struct UpdatePlanToolConfig {
    pub enabled: bool,
}

/// Limits on goals.
#[derive(Clone, Copy, Debug, PartialEq, Eq, Structural)]
pub struct GoalsToml {
    /// The largest token budget of a goal, and the budget of a new one.
    pub max_goal_token_budget: Option<u64>,
}

/// Settings without effect, kept so that old files still load.
#[derive(Clone, Copy, Debug, PartialEq, Eq, Structural)]
pub struct GhostSnapshotToml {
    pub ignore_large_untracked_files: Option<i64>,
    pub ignore_large_untracked_dirs: Option<i64>,
    pub disable_warnings: Option<bool>,
}

/// A duration in whole seconds. Zero means that everything has expired.
#[derive(Clone, Copy, Debug, PartialEq, Eq, PartialOrd, Ord, Structural)]
pub struct AutoShakeDurationToml(pub i64);

/// The product of two numbers, kept inside their range.
pub open spec fn saturating_product(a: int, b: int) -> int {
    if a * b > i64::MAX {
        i64::MAX as int
    } else if a * b < i64::MIN {
        i64::MIN as int
    } else {
        a * b
    }
}

/// The product of two numbers, kept inside their range.
pub fn saturating_mul(a: i64, b: i64) -> (r: i64)
    ensures
        r == saturating_product(a as int, b as int),
{
    match a.checked_mul(b) {
        Some(r) => r,
        None => {
            if (a < 0) == (b < 0) {
                assert(a * b >= 0) by (nonlinear_arith)
                    requires
                        (a < 0) == (b < 0),
                ;
                i64::MAX
            } else {
                assert(a * b <= 0) by (nonlinear_arith)
                    requires
                        (a < 0) != (b < 0),
                ;
                i64::MIN
            }
        },
    }
}

/// The seconds that a unit suffix stands for.
pub open spec fn unit_seconds(c: char) -> Option<int> {
    if c == 's' || c == 'S' {
        Some(1)
    } else if c == 'm' || c == 'M' {
        Some(60)
    } else if c == 'h' || c == 'H' {
        Some(3_600)
    } else if c == 'd' || c == 'D' {
        Some(86_400)
    } else {
        None
    }
}

/// An integer that fits 64 bits.
pub open spec fn parse_i64(s: Seq<char>) -> Option<int> {
    match text::parse_int(s) {
        Some(n) if i64::MIN <= n <= i64::MAX => Some(n),
        _ => None,
    }
}

pub open spec fn negative_duration_text(original: Seq<char>) -> Seq<char> {
    "invalid auto_shake duration \""@ + original + "\": must not be negative"@
}

pub open spec fn bad_duration_text(value: Seq<char>) -> Seq<char> {
    "invalid auto_shake duration "@ + text::debug_text(value)
        + ": expected a number of seconds (e.g. 300) or a duration string like \"5m\", \"1h\" or \"2d\""@
}

/// The seconds of a number without a unit.
pub open spec fn checked_seconds(value: int, original: Seq<char>) -> Result<int, Seq<char>> {
    if value < 0 {
        Err(negative_duration_text(original))
    } else {
        Ok(value)
    }
}

/// The seconds that a duration string stands for: a number, and a unit behind
/// it unless the number is one of seconds.
pub open spec fn seconds_of(value: Seq<char>) -> Result<int, Seq<char>> {
    let trimmed = text::trim(value);
    let has_unit = trimmed.len() > 0 && unit_seconds(trimmed.last()) is Some;
    let digits = if has_unit {
        trimmed.drop_last()
    } else {
        trimmed
    };
    let unit = if has_unit {
        unit_seconds(trimmed.last())->0
    } else {
        1
    };
    match parse_i64(text::trim(digits)) {
        Some(n) => checked_seconds(saturating_product(n, unit), value),
        None => Err(bad_duration_text(value)),
    }
}

/// A result of the library and its value agree.
pub open spec fn same_seconds(
    r: Result<AutoShakeDurationToml, String>,
    v: Result<int, Seq<char>>,
) -> bool {
    match (r, v) {
        (Ok(d), Ok(n)) => d.0 == n,
        (Err(message), Err(words)) => message@ == words,
        _ => false,
    }
}

impl AutoShakeDurationToml {
    /// The seconds.
    pub fn as_secs(self) -> (secs: i64)
        ensures
            secs == self.0,
    {
        self.0
    }

    /// The duration that a string stands for.
    pub fn parse_str(value: &str) -> (r: Result<Self, String>)
        ensures
            same_seconds(r, seconds_of(value@)),
    {
        let chars = text::chars_of(value);
        let trimmed = text::trimmed(chars.as_slice());
        let mut end: usize = trimmed.len();
        let mut unit: i64 = 1;
        if trimmed.len() > 0 {
            let last = trimmed[trimmed.len() - 1];
            if last == 's' || last == 'S' {
                end = end - 1;
            } else if last == 'm' || last == 'M' {
                end = end - 1;
                unit = 60;
            } else if last == 'h' || last == 'H' {
                end = end - 1;
                unit = 3_600;
            } else if last == 'd' || last == 'D' {
                end = end - 1;
                unit = 86_400;
            }
        }
        let digits = vstd::slice::slice_subrange(trimmed, 0, end);
        proof {
            if end < trimmed@.len() {
                assert(digits@ == trimmed@.drop_last());
            } else {
                assert(digits@ == trimmed@);
            }
        }
        match text::parse_i64(text::trimmed(digits)) {
            Some(n) => AutoShakeDurationToml::checked(saturating_mul(n, unit), value),
            None => {
                let mut message = "invalid auto_shake duration ".to_owned();
                message.append(text::quoted(value).as_str());
                message.append(
                    ": expected a number of seconds (e.g. 300) or a duration string like \"5m\", \"1h\" or \"2d\"",
                );
                Err(message)
            },
        }
    }

    /// The duration of a bare number of seconds.
    pub fn from_int(value: i64) -> (r: Result<Self, String>)
        ensures
            same_seconds(r, checked_seconds(value as int, text::signed_decimal(value as int))),
    {
        let original = text::signed_decimal_text(value);
        AutoShakeDurationToml::checked(value, original.as_str())
    }

    fn checked(value: i64, original: &str) -> (r: Result<Self, String>)
        ensures
            same_seconds(r, checked_seconds(value as int, original@)),
    {
        if value < 0 {
            let mut message = "invalid auto_shake duration \"".to_owned();
            message.append(original);
            message.append("\": must not be negative");
            return Err(message);
        }
        Ok(AutoShakeDurationToml(value))
    }
}

/// When a shake is due.
#[derive(Clone, Copy, Debug, PartialEq, Eq, Structural)]
pub enum AutoShakeThresholdToml {
    /// Never.
    Off,
    /// At a share of the context window.
    Percent(i64),
    /// At a number of tokens.
    Tokens(i64),
    /// Where the global setting says.
    Inherit,
}

pub open spec fn bad_threshold_text(value: Seq<char>) -> Seq<char> {
    "invalid auto_shake threshold "@ + text::debug_text(value)
        + ": expected \"off\", \"inherit\", an integer percent, a percent string like \"40%\", or an absolute token count like \"160k\""@
}

pub open spec fn checked_percent(value: int, original: Seq<char>) -> Result<
    AutoShakeThresholdToml,
    Seq<char>,
> {
    if value <= 0 {
        Err("invalid auto_shake threshold \""@ + original + "\": percent must be positive"@)
    } else {
        Ok(AutoShakeThresholdToml::Percent(value as i64))
    }
}

pub open spec fn checked_tokens(value: int, original: Seq<char>) -> Result<
    AutoShakeThresholdToml,
    Seq<char>,
> {
    if value <= 0 {
        Err(
            "invalid auto_shake threshold \""@ + original
                + "\": absolute token count must be positive"@,
        )
    } else {
        Ok(AutoShakeThresholdToml::Tokens(value as i64))
    }
}

/// A number without a unit: up to a hundred it is a percentage, beyond that a
/// number of tokens.
pub open spec fn bare_threshold(value: int, original: Seq<char>) -> Result<
    AutoShakeThresholdToml,
    Seq<char>,
> {
    if value <= 100 {
        checked_percent(value, original)
    } else {
        checked_tokens(value, original)
    }
}

/// The threshold that a string stands for.
pub open spec fn threshold_of(value: Seq<char>) -> Result<AutoShakeThresholdToml, Seq<char>> {
    if value == "off"@ {
        Ok(AutoShakeThresholdToml::Off)
    } else if value == "inherit"@ {
        Ok(AutoShakeThresholdToml::Inherit)
    } else if value.len() > 0 && value.last() == '%' {
        match parse_i64(value.drop_last()) {
            Some(n) => checked_percent(n, value),
            None => Err(bad_threshold_text(value)),
        }
    } else if value.len() > 0 && (value.last() == 'k' || value.last() == 'K') {
        match parse_i64(value.drop_last()) {
            Some(n) => checked_tokens(saturating_product(n, 1_000), value),
            None => Err(bad_threshold_text(value)),
        }
    } else {
        match parse_i64(value) {
            Some(n) => bare_threshold(n, value),
            None => Err(bad_threshold_text(value)),
        }
    }
}

/// A result of the library and its value agree.
pub open spec fn same_threshold(
    r: Result<AutoShakeThresholdToml, String>,
    v: Result<AutoShakeThresholdToml, Seq<char>>,
) -> bool {
    match (r, v) {
        (Ok(a), Ok(b)) => a == b,
        (Err(message), Err(words)) => message@ == words,
        _ => false,
    }
}

impl AutoShakeThresholdToml {
    /// The threshold that a string stands for.
    pub fn parse_str(value: &str) -> (r: Result<Self, String>)
        ensures
            same_threshold(r, threshold_of(value@)),
    {
        if text::same_text(value, "off") {
            return Ok(AutoShakeThresholdToml::Off);
        }
        if text::same_text(value, "inherit") {
            return Ok(AutoShakeThresholdToml::Inherit);
        }
        let chars = text::chars_of(value);
        if chars.len() > 0 {
            let last = chars[chars.len() - 1];
            let digits = vstd::slice::slice_subrange(chars.as_slice(), 0, chars.len() - 1);
            assert(digits@ == value@.drop_last());
            if last == '%' {
                return match text::parse_i64(digits) {
                    Some(n) => AutoShakeThresholdToml::checked_percent(n, value),
                    None => Err(AutoShakeThresholdToml::error(value)),
                };
            }
            if last == 'k' || last == 'K' {
                return match text::parse_i64(digits) {
                    Some(n) => AutoShakeThresholdToml::checked_tokens(
                        saturating_mul(n, 1_000),
                        value,
                    ),
                    None => Err(AutoShakeThresholdToml::error(value)),
                };
            }
        }
        match text::parse_i64(chars.as_slice()) {
            Some(n) => AutoShakeThresholdToml::from_bare(n, value),
            None => Err(AutoShakeThresholdToml::error(value)),
        }
    }

    /// The threshold of a bare number: up to a hundred it is a percentage,
    /// beyond that a number of tokens.
    pub fn from_bare_int(value: i64) -> (r: Result<Self, String>)
        ensures
            same_threshold(r, bare_threshold(value as int, text::signed_decimal(value as int))),
    {
        let original = text::signed_decimal_text(value);
        AutoShakeThresholdToml::from_bare(value, original.as_str())
    }

    fn from_bare(value: i64, original: &str) -> (r: Result<Self, String>)
        ensures
            same_threshold(r, bare_threshold(value as int, original@)),
    {
        if value <= 100 {
            AutoShakeThresholdToml::checked_percent(value, original)
        } else {
            AutoShakeThresholdToml::checked_tokens(value, original)
        }
    }

    fn checked_percent(value: i64, original: &str) -> (r: Result<Self, String>)
        ensures
            same_threshold(r, checked_percent(value as int, original@)),
    {
        if value <= 0 {
            let mut message = "invalid auto_shake threshold \"".to_owned();
            message.append(original);
            message.append("\": percent must be positive");
            return Err(message);
        }
        Ok(AutoShakeThresholdToml::Percent(value))
    }

    fn checked_tokens(value: i64, original: &str) -> (r: Result<Self, String>)
        ensures
            same_threshold(r, checked_tokens(value as int, original@)),
    {
        if value <= 0 {
            let mut message = "invalid auto_shake threshold \"".to_owned();
            message.append(original);
            message.append("\": absolute token count must be positive");
            return Err(message);
        }
        Ok(AutoShakeThresholdToml::Tokens(value))
    }

    fn error(value: &str) -> (message: String)
        ensures
            message@ == bad_threshold_text(value@),
    {
        let mut message = "invalid auto_shake threshold ".to_owned();
        message.append(text::quoted(value).as_str());
        message.append(
            ": expected \"off\", \"inherit\", an integer percent, a percent string like \"40%\", or an absolute token count like \"160k\"",
        );
        message
    }
}

/// Settings of one model family.
#[derive(Clone, Copy, Debug, PartialEq, Eq, Structural)]
pub struct AutoShakeModelToml {
    pub threshold: Option<AutoShakeThresholdToml>,
    pub min_elidable_percent: Option<i64>,
}

/// Settings of one provider.
#[derive(Clone, Copy, Debug, PartialEq, Eq, Structural)]
pub struct AutoShakeProviderToml {
    pub cache_ttl: Option<AutoShakeDurationToml>,
}

/// Settings of automatic shakes, as a configuration file gives them. Families
/// and providers come by their names.
#[derive(Debug, PartialEq, Eq)]
pub struct AutoShakeToml {
    pub threshold: Option<AutoShakeThresholdToml>,
    pub min_elidable_percent: Option<i64>,
    pub min_savings_tokens: Option<i64>,
    pub models: Vec<(String, AutoShakeModelToml)>,
    pub cold_resume: Option<bool>,
    pub cache_ttl: Option<AutoShakeDurationToml>,
    pub providers: Vec<(String, AutoShakeProviderToml)>,
}

impl Default for AutoShakeToml {
    /// Nothing is set.
    fn default() -> (r: Self)
        ensures
            r.threshold is None,
            r.min_elidable_percent is None,
            r.min_savings_tokens is None,
            r.models@.len() == 0,
            r.cold_resume is None,
            r.cache_ttl is None,
            r.providers@.len() == 0,
    {
        AutoShakeToml {
            threshold: None,
            min_elidable_percent: None,
            min_savings_tokens: None,
            models: Vec::new(),
            cold_resume: None,
            cache_ttl: None,
            providers: Vec::new(),
        }
    }
}

/// A percentage or a token count is always positive, and so is every threshold
/// that a string or a number stands for.
pub proof fn law_thresholds_are_positive(value: Seq<char>, n: int)
    requires
        i64::MIN <= n <= i64::MAX,
    ensures
        match threshold_of(value) {
            Ok(AutoShakeThresholdToml::Percent(p)) => p > 0,
            Ok(AutoShakeThresholdToml::Tokens(t)) => t > 0,
            _ => true,
        },
        match bare_threshold(n, value) {
            Ok(AutoShakeThresholdToml::Percent(p)) => 0 < p <= 100 && p == n,
            Ok(AutoShakeThresholdToml::Tokens(t)) => t > 100 && t == n,
            Ok(_) => false,
            Err(_) => n <= 0,
        },
{
}

/// A threshold as it is written to a file: a word or a number.
#[derive(Clone, Copy, Debug, PartialEq, Eq)]
pub enum WrittenThreshold {
    Word(&'static str),
    Number(i64),
}

impl AutoShakeThresholdToml {
    /// The threshold as it is written to a file.
    pub fn written(self) -> (w: WrittenThreshold)
        ensures
            match (self, w) {
                (AutoShakeThresholdToml::Off, WrittenThreshold::Word(word)) => word@ == "off"@,
                (AutoShakeThresholdToml::Inherit, WrittenThreshold::Word(word)) => word@
                    == "inherit"@,
                (AutoShakeThresholdToml::Percent(value), WrittenThreshold::Number(n)) => n == value,
                (AutoShakeThresholdToml::Tokens(value), WrittenThreshold::Number(n)) => n == value,
                _ => false,
            },
    {
        match self {
            AutoShakeThresholdToml::Off => WrittenThreshold::Word("off"),
            AutoShakeThresholdToml::Inherit => WrittenThreshold::Word("inherit"),
            AutoShakeThresholdToml::Percent(value) => WrittenThreshold::Number(value),
            AutoShakeThresholdToml::Tokens(value) => WrittenThreshold::Number(value),
        }
    }
}

/// A threshold that is written to a file is read back as it was, where a
/// percentage is at most a hundred and a token count is above that.
pub proof fn law_thresholds_are_read_back(threshold: AutoShakeThresholdToml, original: Seq<char>)
    requires
        match threshold {
            AutoShakeThresholdToml::Percent(value) => 0 < value <= 100,
            AutoShakeThresholdToml::Tokens(value) => value > 100,
            _ => true,
        },
    ensures
        match threshold {
            AutoShakeThresholdToml::Off => threshold_of("off"@) == Ok::<_, Seq<char>>(threshold),
            AutoShakeThresholdToml::Inherit => threshold_of("inherit"@) == Ok::<_, Seq<char>>(
                threshold,
            ),
            AutoShakeThresholdToml::Percent(value) => bare_threshold(value as int, original)
                == Ok::<_, Seq<char>>(threshold),
            AutoShakeThresholdToml::Tokens(value) => bare_threshold(value as int, original)
                == Ok::<_, Seq<char>>(threshold),
        },
{
    reveal_strlit("off");
    reveal_strlit("inherit");
    assert(threshold_of("off"@) == Ok::<_, Seq<char>>(AutoShakeThresholdToml::Off));
    assert("off"@.len() != "inherit"@.len());
    assert(threshold_of("inherit"@) == Ok::<_, Seq<char>>(AutoShakeThresholdToml::Inherit));
}

/// A duration is never negative.
pub proof fn law_durations_are_not_negative(value: Seq<char>)
    ensures
        seconds_of(value) is Ok ==> seconds_of(value)->Ok_0 >= 0,
{
}

/// How a spawned agent is shaken when its context has grown too large.
#[derive(Clone, Copy, Debug, PartialEq, Eq, Structural)]
pub enum SubagentContextReductionShake {
    /// As the settings for automatic shakes say.
    Inherit,
    On,
    Off,
}

/// What a spawned agent does when its context could not be made small enough.
#[derive(Clone, Copy, Debug, PartialEq, Eq, Structural)]
pub enum SubagentContextReductionOnFailure {
    Stop,
    Continue,
}

/// The configured policy of spawned agents.
#[derive(Clone, Copy, Debug, PartialEq, Eq, Structural)]
pub struct SubagentContextReductionConfig {
    pub enabled: bool,
    pub threshold_tokens: i64,
    pub check_after_tools: bool,
    pub shake: SubagentContextReductionShake,
    pub on_failure: SubagentContextReductionOnFailure,
}

/// How far a project is trusted.
#[derive(Clone, Copy, Debug, PartialEq, Eq, Structural)]
pub enum TrustLevel {
    Trusted,
    Untrusted,
}

/// What is set for one project.
#[derive(Clone, Copy, Debug, PartialEq, Eq, Structural)]
pub struct ProjectConfig {
    pub trust_level: Option<TrustLevel>,
}

impl ProjectConfig {
    /// The project is trusted.
    pub fn is_trusted(&self) -> (r: bool)
        ensures
            r == (self.trust_level == Some(TrustLevel::Trusted)),
    {
        match self.trust_level {
            Some(TrustLevel::Trusted) => true,
            _ => false,
        }
    }

    /// The project is known not to be trusted.
    pub fn is_untrusted(&self) -> (r: bool)
        ensures
            r == (self.trust_level == Some(TrustLevel::Untrusted)),
    {
        match self.trust_level {
            Some(TrustLevel::Untrusted) => true,
            _ => false,
        }
    }
}

/// What commands may do.
#[derive(Clone, Copy, Debug, PartialEq, Eq, Structural)]
pub enum SandboxMode {
    ReadOnly,
    WorkspaceWrite,
    DangerFullAccess,
}

/// Which sandbox Windows offers.
#[derive(Clone, Copy, Debug, PartialEq, Eq, Structural)]
pub enum WindowsSandboxLevel {
    Disabled,
    RestrictedToken,
    Elevated,
}

/// Whether commands may use the network.
#[derive(Clone, Copy, Debug, PartialEq, Eq, Structural)]
pub enum NetworkSandboxPolicy {
    Restricted,
    Enabled,
}

/// Settings of the workspace sandbox.
#[derive(Debug, PartialEq, Eq)]
pub struct SandboxWorkspaceWrite {
    pub writable_roots: Vec<String>,
    pub network_access: bool,
    pub exclude_tmpdir_env_var: bool,
    pub exclude_slash_tmp: bool,
}

/// The permissions that commands get.
#[derive(Debug, PartialEq, Eq)]
pub enum PermissionProfile {
    /// Reading only.
    ReadOnly,
    /// Writing to the workspace, with the default rules.
    WorkspaceWrite,
    /// Writing to the workspace and to other roots.
    WorkspaceWriteWith {
        writable_roots: Vec<String>,
        network: NetworkSandboxPolicy,
        exclude_tmpdir_env_var: bool,
        exclude_slash_tmp: bool,
    },
    /// No sandbox.
    Disabled,
}

/// The value of a [`PermissionProfile`].
pub enum PermissionProfileView {
    ReadOnly,
    WorkspaceWrite,
    WorkspaceWriteWith {
        writable_roots: Seq<Seq<char>>,
        network: NetworkSandboxPolicy,
        exclude_tmpdir_env_var: bool,
        exclude_slash_tmp: bool,
    },
    Disabled,
}

impl DeepView for PermissionProfile {
    type V = PermissionProfileView;

    open spec fn deep_view(&self) -> PermissionProfileView {
        match self {
            PermissionProfile::ReadOnly => PermissionProfileView::ReadOnly,
            PermissionProfile::WorkspaceWrite => PermissionProfileView::WorkspaceWrite,
            PermissionProfile::WorkspaceWriteWith {
                writable_roots,
                network,
                exclude_tmpdir_env_var,
                exclude_slash_tmp,
            } => PermissionProfileView::WorkspaceWriteWith {
                writable_roots: writable_roots.deep_view(),
                network: *network,
                exclude_tmpdir_env_var: *exclude_tmpdir_env_var,
                exclude_slash_tmp: *exclude_slash_tmp,
            },
            PermissionProfile::Disabled => PermissionProfileView::Disabled,
        }
    }
}

/// The settings of a configuration file that this library reads.
#[derive(Debug, PartialEq, Eq)]
pub struct ConfigToml {
    pub sandbox_mode: Option<SandboxMode>,
    pub sandbox_workspace_write: Option<SandboxWorkspaceWrite>,
    /// What is set for each project, by its path.
    pub projects: Option<Vec<(String, ProjectConfig)>>,
}

/// The sandbox mode where none is set: a project with a trust decision may
/// write to its workspace, and any other may only read. On Windows without a
/// sandbox nothing may write.
pub open spec fn effective_sandbox_mode(
    configured: Option<SandboxMode>,
    windows_without_sandbox: bool,
    active_project: Option<ProjectConfig>,
) -> SandboxMode {
    let resolved = match configured {
        Some(mode) => mode,
        None => if active_project is Some && active_project->0.trust_level is Some {
            SandboxMode::WorkspaceWrite
        } else {
            SandboxMode::ReadOnly
        },
    };
    if windows_without_sandbox && resolved is WorkspaceWrite {
        SandboxMode::ReadOnly
    } else {
        resolved
    }
}

/// The permissions of a sandbox mode.
pub open spec fn profile_of_mode(
    mode: SandboxMode,
    workspace: Option<SandboxWorkspaceWrite>,
) -> PermissionProfileView {
    match mode {
        SandboxMode::ReadOnly => PermissionProfileView::ReadOnly,
        SandboxMode::WorkspaceWrite => match workspace {
            Some(settings) => PermissionProfileView::WorkspaceWriteWith {
                writable_roots: settings.writable_roots.deep_view(),
                network: if settings.network_access {
                    NetworkSandboxPolicy::Enabled
                } else {
                    NetworkSandboxPolicy::Restricted
                },
                exclude_tmpdir_env_var: settings.exclude_tmpdir_env_var,
                exclude_slash_tmp: settings.exclude_slash_tmp,
            },
            None => PermissionProfileView::WorkspaceWrite,
        },
        SandboxMode::DangerFullAccess => PermissionProfileView::Disabled,
    }
}

fn copy_texts(texts: &Vec<String>) -> (copy: Vec<String>)
    ensures
        copy.deep_view() == texts.deep_view(),
{
    let mut copy: Vec<String> = Vec::new();
    let mut i: usize = 0;
    while i < texts.len()
        invariant
            i <= texts@.len(),
            copy.deep_view() == texts.deep_view().take(i as int),
        decreases texts@.len() - i,
    {
        copy.push(texts[i].clone());
        i = i + 1;
        assert(copy.deep_view() == texts.deep_view().take(i - 1).push(texts.deep_view()[i - 1]));
        assert(texts.deep_view().take(i as int) == texts.deep_view().take(i - 1).push(
            texts.deep_view()[i - 1],
        ));
    }
    assert(texts.deep_view().take(i as int) == texts.deep_view());
    copy
}

/// A key as it is compared: on Windows without regard to case.
pub open spec fn normal_key(key: Seq<char>, on_windows: bool) -> Seq<char> {
    if on_windows {
        text::to_ascii_lower(key)
    } else {
        key
    }
}

/// The keys under which a path may be listed: the canonical form first.
pub open spec fn lookup_keys(
    path: Seq<char>,
    canonical: Option<Seq<char>>,
    on_windows: bool,
) -> Seq<Seq<char>> {
    let plain = normal_key(path, on_windows);
    let resolved = normal_key(
        match canonical {
            Some(canonical) => canonical,
            None => path,
        },
        on_windows,
    );
    if plain == resolved {
        seq![resolved]
    } else {
        seq![resolved, plain]
    }
}

/// The first of the first `n` entries with the key `key`.
pub open spec fn exact_entry(
    projects: Seq<(Seq<char>, ProjectConfig)>,
    key: Seq<char>,
    n: int,
) -> Option<ProjectConfig>
    decreases n,
{
    if n <= 0 {
        None
    } else {
        match exact_entry(projects, key, n - 1) {
            Some(project) => Some(project),
            None => if projects[n - 1].0 == key {
                Some(projects[n - 1].1)
            } else {
                None
            },
        }
    }
}

/// Of the first `n` entries whose key is compared as `key`, the position of the
/// one that comes first by its own key.
pub open spec fn normal_entry(
    projects: Seq<(Seq<char>, ProjectConfig)>,
    key: Seq<char>,
    on_windows: bool,
    n: int,
) -> Option<int>
    decreases n,
{
    if n <= 0 {
        None
    } else {
        let best = normal_entry(projects, key, on_windows, n - 1);
        if normal_key(projects[n - 1].0, on_windows) == key && (best is None || text::lex_before(
            projects[n - 1].0,
            projects[best->0].0,
        )) {
            Some(n - 1)
        } else {
            best
        }
    }
}

/// What is set for the project with a key.
pub open spec fn project_for_key(
    projects: Seq<(Seq<char>, ProjectConfig)>,
    key: Seq<char>,
    on_windows: bool,
) -> Option<ProjectConfig> {
    let n = projects.len() as int;
    match exact_entry(projects, key, n) {
        Some(project) => Some(project),
        None => match normal_entry(projects, key, on_windows, n) {
            Some(i) => Some(projects[i].1),
            None => None,
        },
    }
}

/// What is set for the first of some keys that anything is set for.
pub open spec fn project_for_keys(
    projects: Seq<(Seq<char>, ProjectConfig)>,
    keys: Seq<Seq<char>>,
    on_windows: bool,
) -> Option<ProjectConfig>
    decreases keys.len(),
{
    if keys.len() == 0 {
        None
    } else {
        match project_for_key(projects, keys[0], on_windows) {
            Some(project) => Some(project),
            None => project_for_keys(projects, keys.drop_first(), on_windows),
        }
    }
}

/// A path with its canonical form, where that could be found.
#[derive(Debug, PartialEq, Eq)]
pub struct ProjectPath {
    pub path: String,
    pub canonical: Option<String>,
}

impl ProjectPath {
    pub open spec fn keys(self, on_windows: bool) -> Seq<Seq<char>> {
        lookup_keys(self.path@, self.canonical.deep_view(), on_windows)
    }
}

/// The entries of a project map.
pub open spec fn project_entries(projects: Vec<(String, ProjectConfig)>) -> Seq<
    (Seq<char>, ProjectConfig),
> {
    projects@.map_values(|entry: (String, ProjectConfig)| (entry.0@, entry.1))
}

/// A key as it is compared.
pub fn normalize_project_lookup_key(key: &str, on_windows: bool) -> (normal: Vec<char>)
    ensures
        normal@ == normal_key(key@, on_windows),
{
    let chars = text::chars_of(key);
    if on_windows {
        text::lower_chars(chars.as_slice())
    } else {
        chars
    }
}

/// The keys under which a path may be listed.
pub fn normalized_project_lookup_keys(path: &ProjectPath, on_windows: bool) -> (keys: Vec<Vec<char>>)
    ensures
        keys@.map_values(|key: Vec<char>| key@) == path.keys(on_windows),
{
    let plain = normalize_project_lookup_key(path.path.as_str(), on_windows);
    let resolved = match &path.canonical {
        Some(canonical) => normalize_project_lookup_key(canonical.as_str(), on_windows),
        None => normalize_project_lookup_key(path.path.as_str(), on_windows),
    };
    let same = text::same_chars(plain.as_slice(), resolved.as_slice());
    let ghost plain_view = plain@;
    let ghost resolved_view = resolved@;
    let mut keys: Vec<Vec<char>> = Vec::new();
    keys.push(resolved);
    if !same {
        keys.push(plain);
        assert(keys@.map_values(|key: Vec<char>| key@) == seq![resolved_view, plain_view]);
    } else {
        assert(keys@.map_values(|key: Vec<char>| key@) == seq![resolved_view]);
    }
    keys
}

/// What is set for the project with a key.
pub fn project_config_for_lookup_key(
    projects: &Vec<(String, ProjectConfig)>,
    lookup_key: &[char],
    on_windows: bool,
) -> (project: Option<ProjectConfig>)
    ensures
        project == project_for_key(project_entries(*projects), lookup_key@, on_windows),
{
    let ghost entries = project_entries(*projects);
    let mut exact: Option<ProjectConfig> = None;
    let mut best: Option<usize> = None;
    let mut i: usize = 0;
    while i < projects.len()
        invariant
            i <= projects@.len(),
            entries == project_entries(*projects),
            exact == exact_entry(entries, lookup_key@, i as int),
            match best {
                Some(b) => b < i && normal_entry(entries, lookup_key@, on_windows, i as int)
                    == Some(b as int),
                None => normal_entry(entries, lookup_key@, on_windows, i as int) is None,
            },
        decreases projects@.len() - i,
    {
        assert(entries[i as int] == (projects@[i as int].0@, projects@[i as int].1));
        let key = text::chars_of(projects[i].0.as_str());
        if exact.is_none() && text::same_chars(key.as_slice(), lookup_key) {
            exact = Some(projects[i].1);
        }
        let normal = normalize_project_lookup_key(projects[i].0.as_str(), on_windows);
        if text::same_chars(normal.as_slice(), lookup_key) {
            let first: bool = match best {
                Some(b) => {
                    let other = text::chars_of(projects[b].0.as_str());
                    assert(entries[b as int].0 == other@);
                    text::is_before(key.as_slice(), other.as_slice())
                },
                None => true,
            };
            if first {
                best = Some(i);
            }
        }
        i = i + 1;
    }
    match exact {
        Some(project) => Some(project),
        None => match best {
            Some(b) => {
                assert(entries[b as int].1 == projects@[b as int].1);
                Some(projects[b].1)
            },
            None => None,
        },
    }
}

fn project_config_for_keys(
    projects: &Vec<(String, ProjectConfig)>,
    keys: &Vec<Vec<char>>,
    on_windows: bool,
) -> (project: Option<ProjectConfig>)
    ensures
        project == project_for_keys(
            project_entries(*projects),
            keys@.map_values(|key: Vec<char>| key@),
            on_windows,
        ),
{
    let ghost views = keys@.map_values(|key: Vec<char>| key@);
    let ghost entries = project_entries(*projects);
    let mut i: usize = 0;
    assert(views.skip(0) == views);
    while i < keys.len()
        invariant
            i <= keys@.len(),
            views == keys@.map_values(|key: Vec<char>| key@),
            entries == project_entries(*projects),
            project_for_keys(entries, views, on_windows) == project_for_keys(
                entries,
                views.skip(i as int),
                on_windows,
            ),
        decreases keys@.len() - i,
    {
        assert(views.skip(i as int)[0] == keys@[i as int]@);
        assert(views.skip(i as int).drop_first() == views.skip(i + 1));
        let found = project_config_for_lookup_key(projects, keys[i].as_slice(), on_windows);
        if found.is_some() {
            return found;
        }
        i = i + 1;
    }
    None
}

/// A constraint may be asked about the permissions `derived`.
pub open spec fn takes<F: Fn(&PermissionProfile) -> bool>(
    allows: F,
    derived: PermissionProfileView,
) -> bool {
    forall|p: &PermissionProfile| p.deep_view() == derived ==> #[trigger] call_requires(allows, (p,))
}

/// `profile` is what a constraint leaves of the permissions `derived`: all of
/// them where it allows them, and reading only where it does not.
pub open spec fn constrained_by<F: Fn(&PermissionProfile) -> bool>(
    allows: F,
    derived: PermissionProfileView,
    profile: PermissionProfileView,
) -> bool {
    exists|p: &PermissionProfile, allowed: bool|
        p.deep_view() == derived && #[trigger] call_ensures(allows, (p,), allowed) && profile
            == if allowed {
            derived
        } else {
            PermissionProfileView::ReadOnly
        }
}

impl ConfigToml {
    /// The sandbox mode that is set, an override before the setting.
    pub open spec fn configured_mode(self, sandbox_mode_override: Option<SandboxMode>) -> Option<
        SandboxMode,
    > {
        if sandbox_mode_override is Some {
            sandbox_mode_override
        } else {
            self.sandbox_mode
        }
    }

    /// The permissions that the sandbox settings give before any constraint.
    pub open spec fn unconstrained_profile(
        self,
        sandbox_mode_override: Option<SandboxMode>,
        windows_without_sandbox: bool,
        active_project: Option<ProjectConfig>,
    ) -> PermissionProfileView {
        profile_of_mode(
            effective_sandbox_mode(
                self.configured_mode(sandbox_mode_override),
                windows_without_sandbox,
                active_project,
            ),
            self.sandbox_workspace_write,
        )
    }

    fn derive_unconstrained(
        &self,
        sandbox_mode_override: Option<SandboxMode>,
        windows_without_sandbox: bool,
        active_project: Option<ProjectConfig>,
    ) -> (profile: PermissionProfile)
        ensures
            profile.deep_view() == self.unconstrained_profile(
                sandbox_mode_override,
                windows_without_sandbox,
                active_project,
            ),
    {
        let configured: Option<SandboxMode> = match sandbox_mode_override {
            Some(mode) => Some(mode),
            None => self.sandbox_mode,
        };
        let resolved: SandboxMode = match configured {
            Some(mode) => mode,
            None => {
                let decided: bool = match active_project {
                    Some(project) => project.is_trusted() || project.is_untrusted(),
                    None => false,
                };
                proof {
                    if let Some(project) = active_project {
                        if let Some(level) = project.trust_level {
                            assert(level is Trusted || level is Untrusted);
                        }
                    }
                }
                if decided {
                    SandboxMode::WorkspaceWrite
                } else {
                    SandboxMode::ReadOnly
                }
            },
        };
        match resolved {
            SandboxMode::ReadOnly => PermissionProfile::ReadOnly,
            SandboxMode::WorkspaceWrite => {
                if windows_without_sandbox {
                    return PermissionProfile::ReadOnly;
                }
                match &self.sandbox_workspace_write {
                    Some(settings) => PermissionProfile::WorkspaceWriteWith {
                        writable_roots: copy_texts(&settings.writable_roots),
                        network: if settings.network_access {
                            NetworkSandboxPolicy::Enabled
                        } else {
                            NetworkSandboxPolicy::Restricted
                        },
                        exclude_tmpdir_env_var: settings.exclude_tmpdir_env_var,
                        exclude_slash_tmp: settings.exclude_slash_tmp,
                    },
                    None => PermissionProfile::WorkspaceWrite,
                }
            },
            SandboxMode::DangerFullAccess => PermissionProfile::Disabled,
        }
    }

    /// The permissions that the sandbox settings give. Where no mode is set and
    /// the resulting profile is not allowed, only reading is left.
    ///
    /// `on_windows` says whether commands run on Windows, and `allows` what a
    /// constraint, if there is one, says of a profile.
    pub fn derive_permission_profile<F: Fn(&PermissionProfile) -> bool>(
        &self,
        sandbox_mode_override: Option<SandboxMode>,
        windows_sandbox_level: WindowsSandboxLevel,
        active_project: Option<ProjectConfig>,
        allows: Option<&F>,
        on_windows: bool,
    ) -> (profile: PermissionProfile)
        requires
            self.configured_mode(sandbox_mode_override) is None ==> (allows matches Some(f)
                ==> takes(
                *f,
                self.unconstrained_profile(
                    sandbox_mode_override,
                    on_windows && windows_sandbox_level is Disabled,
                    active_project,
                ),
            )),
        ensures
            ({
                let derived = self.unconstrained_profile(
                    sandbox_mode_override,
                    on_windows && windows_sandbox_level is Disabled,
                    active_project,
                );
                match allows {
                    Some(f) if self.configured_mode(sandbox_mode_override) is None => {
                        constrained_by(*f, derived, profile.deep_view())
                    },
                    _ => profile.deep_view() == derived,
                }
            }),
    {
        let windows_without_sandbox: bool = on_windows && match windows_sandbox_level {
            WindowsSandboxLevel::Disabled => true,
            _ => false,
        };
        let derived = self.derive_unconstrained(
            sandbox_mode_override,
            windows_without_sandbox,
            active_project,
        );
        if sandbox_mode_override.is_none() && self.sandbox_mode.is_none() {
            if let Some(allows) = allows {
                let checked = &derived;
                let allowed: bool = allows(checked);
                assert(call_ensures(*allows, (checked,), allowed));
                if !allowed {
                    return PermissionProfile::ReadOnly;
                }
            }
        }
        derived
    }

    /// What is set for the project of a working directory, or for the root of
    /// its repository.
    pub fn get_active_project(
        &self,
        cwd: &ProjectPath,
        repo_root: Option<&ProjectPath>,
        on_windows: bool,
    ) -> (project: Option<ProjectConfig>)
        ensures
            project == match self.projects {
                None => None,
                Some(projects) => match project_for_keys(
                    project_entries(projects),
                    cwd.keys(on_windows),
                    on_windows,
                ) {
                    Some(project) => Some(project),
                    None => match repo_root {
                        Some(root) => project_for_keys(
                            project_entries(projects),
                            root.keys(on_windows),
                            on_windows,
                        ),
                        None => None,
                    },
                },
            },
    {
        match &self.projects {
            None => None,
            Some(projects) => {
                let keys = normalized_project_lookup_keys(cwd, on_windows);
                let found = project_config_for_keys(projects, &keys, on_windows);
                if found.is_some() {
                    return found;
                }
                match repo_root {
                    Some(root) => {
                        let keys = normalized_project_lookup_keys(root, on_windows);
                        project_config_for_keys(projects, &keys, on_windows)
                    },
                    None => None,
                }
            },
        }
    }
}

/// A project without a sandbox setting and without a trust decision can only be
/// read, and Windows without a sandbox never writes to a workspace.
pub proof fn law_sandbox_defaults(
    configured: Option<SandboxMode>,
    active_project: Option<ProjectConfig>,
)
    ensures
        active_project is None || active_project->0.trust_level is None ==> effective_sandbox_mode(
            None,
            false,
            active_project,
        ) is ReadOnly,
        !(effective_sandbox_mode(configured, true, active_project) is WorkspaceWrite),
        configured is Some ==> effective_sandbox_mode(configured, false, active_project)
            == configured->0,
{
}

/// What is set for a model provider, as far as it can be wrong.
#[derive(Debug, PartialEq, Eq)]
pub struct ModelProviderInfo {
    /// The name that is shown.
    pub name: String,
    /// Whether AWS settings are present.
    pub aws: bool,
    /// The command that gets a token, if one is set.
    pub auth_command: Option<String>,
}

impl ModelProviderInfo {
    /// Refuses a command for tokens that is empty.
    pub fn validate(&self) -> (r: Result<(), String>)
        ensures
            r is Err == (self.auth_command is Some && text::trim(self.auth_command->0@).len()
                == 0),
            r matches Err(message) ==> message@ == "provider auth.command must not be empty"@,
    {
        if let Some(command) = &self.auth_command {
            let chars = text::chars_of(command.as_str());
            if text::trimmed(chars.as_slice()).len() == 0 {
                return Err("provider auth.command must not be empty".to_owned());
            }
        }
        Ok(())
    }
}

/// `check`, asked about a provider, may have given this answer: what is wrong
/// with the provider on its own, if anything is.
pub open spec fn answered<F: Fn(&ModelProviderInfo) -> Result<(), String>>(
    check: F,
    provider: ModelProviderInfo,
    answer: Option<Seq<char>>,
) -> bool {
    exists|r: Result<(), String>| #[trigger]
        call_ensures(check, (&provider,), r) && answer == match r {
            Ok(_) => None,
            Err(problem) => Some(problem@),
        }
}

/// A Bedrock provider.
pub open spec fn is_bedrock(id: Seq<char>) -> bool {
    id == AMAZON_BEDROCK_PROVIDER_ID@ || id == AMAZON_BEDROCK_RUNTIME_PROVIDER_ID@
}

/// Some provider has the id `id`.
pub open spec fn has_provider(
    providers: Seq<(String, ModelProviderInfo)>,
    id: Seq<char>,
) -> bool {
    exists|i: int| 0 <= i < providers.len() && (#[trigger] providers[i]).0@ == id
}

fn lists_provider(providers: &Vec<(String, ModelProviderInfo)>, id: &str) -> (r: bool)
    ensures
        r == has_provider(providers@, id@),
{
    let mut i: usize = 0;
    while i < providers.len()
        invariant
            i <= providers@.len(),
            forall|k: int| 0 <= k < i ==> (#[trigger] providers@[k]).0@ != id@,
        decreases providers@.len() - i,
    {
        if text::same_text(providers[i].0.as_str(), id) {
            return true;
        }
        i = i + 1;
    }
    false
}

/// The ids that providers take although they are built in, in text order.
pub open spec fn reserved_conflicts(providers: Seq<(String, ModelProviderInfo)>) -> Seq<Seq<char>> {
    let a = if has_provider(providers, LMSTUDIO_OSS_PROVIDER_ID@) {
        seq!["`lmstudio`"@]
    } else {
        Seq::empty()
    };
    let b = if has_provider(providers, OLLAMA_OSS_PROVIDER_ID@) {
        a.push("`ollama`"@)
    } else {
        a
    };
    if has_provider(providers, OPENAI_PROVIDER_ID@) {
        b.push("`openai`"@)
    } else {
        b
    }
}

/// Why built-in ids are refused.
pub open spec fn reserved_text(providers: Seq<(String, ModelProviderInfo)>) -> Seq<char> {
    "model_providers contains reserved built-in provider IDs: "@ + text::join(
        reserved_conflicts(providers),
        ", "@,
    )
        + ". Built-in providers cannot be overridden. Rename your custom provider (for example, `openai-custom`)."@
}

/// Refuses providers with the id of a built-in one. The Bedrock providers may
/// be set up, so their ids are not refused.
pub fn validate_reserved_model_provider_ids(providers: &Vec<(String, ModelProviderInfo)>) -> (r:
    Result<(), String>)
    ensures
        match r {
            Ok(_) => !has_provider(providers@, OPENAI_PROVIDER_ID@) && !has_provider(
                providers@,
                OLLAMA_OSS_PROVIDER_ID@,
            ) && !has_provider(providers@, LMSTUDIO_OSS_PROVIDER_ID@),
            Err(message) => reserved_conflicts(providers@).len() > 0 && message@ == reserved_text(
                providers@,
            ),
        },
{
    let mut joined: Option<String> = None;
    let ghost mut parts: Seq<Seq<char>> = Seq::empty();
    if lists_provider(providers, LMSTUDIO_OSS_PROVIDER_ID) {
        text::join_onto(&mut joined, "`lmstudio`", ", ", Ghost(parts));
        proof {
            parts = parts.push("`lmstudio`"@);
        }
    }
    if lists_provider(providers, OLLAMA_OSS_PROVIDER_ID) {
        text::join_onto(&mut joined, "`ollama`", ", ", Ghost(parts));
        proof {
            parts = parts.push("`ollama`"@);
        }
    }
    if lists_provider(providers, OPENAI_PROVIDER_ID) {
        text::join_onto(&mut joined, "`openai`", ", ", Ghost(parts));
        proof {
            parts = parts.push("`openai`"@);
        }
    }
    assert(parts == reserved_conflicts(providers@));
    match joined {
        None => Ok(()),
        Some(conflicts) => {
            let mut message = "model_providers contains reserved built-in provider IDs: ".to_owned();
            message.append(conflicts.as_str());
            message.append(
                ". Built-in providers cannot be overridden. Rename your custom provider (for example, `openai-custom`).",
            );
            Err(message)
        },
    }
}

/// What is wrong with the settings that the provider `id` must or must not have.
pub open spec fn setting_problem(id: Seq<char>, provider: ModelProviderInfo) -> Option<Seq<char>> {
    let head = "model_providers."@ + id;
    if !is_bedrock(id) && provider.aws {
        Some(
            head
                + ": provider aws is only supported for `amazon-bedrock` or `amazon-bedrock-runtime`"@,
        )
    } else if !is_bedrock(id) && text::trim(provider.name@).len() == 0 {
        Some(head + ": provider name must not be empty"@)
    } else {
        None
    }
}

/// What is wrong with the provider `id`, given what a check of the provider on
/// its own answers.
pub open spec fn entry_problem(
    id: Seq<char>,
    provider: ModelProviderInfo,
    answer: Option<Seq<char>>,
) -> Option<Seq<char>> {
    match (setting_problem(id, provider), answer) {
        (Some(problem), _) => Some(problem),
        (None, Some(problem)) => Some("model_providers."@ + id + ": "@ + problem),
        (None, None) => None,
    }
}

/// The first problem among the first `n` providers.
pub open spec fn first_problem(
    providers: Seq<(String, ModelProviderInfo)>,
    answers: Seq<Option<Seq<char>>>,
    n: int,
) -> Option<Seq<char>>
    decreases n,
{
    if n <= 0 {
        None
    } else {
        match first_problem(providers, answers, n - 1) {
            Some(problem) => Some(problem),
            None => entry_problem(providers[n - 1].0@, providers[n - 1].1, answers[n - 1]),
        }
    }
}

/// Provider `k` comes before `check`: nothing was wrong before it, nor with its
/// own settings.
pub open spec fn is_asked_about(
    providers: Seq<(String, ModelProviderInfo)>,
    answers: Seq<Option<Seq<char>>>,
    k: int,
) -> bool {
    first_problem(providers, answers, k) is None && setting_problem(
        providers[k].0@,
        providers[k].1,
    ) is None
}

/// One answer for each provider: what `check` said of those it was asked about.
pub open spec fn are_answers<F: Fn(&ModelProviderInfo) -> Result<(), String>>(
    check: F,
    providers: Seq<(String, ModelProviderInfo)>,
    answers: Seq<Option<Seq<char>>>,
) -> bool {
    &&& answers.len() == providers.len()
    &&& forall|k: int|
        0 <= k < providers.len() && is_asked_about(providers, answers, k) ==> answered(
            check,
            providers[k].1,
            #[trigger] answers[k],
        )
}

fn check_provider<F: Fn(&ModelProviderInfo) -> Result<(), String>>(
    id: &String,
    provider: &ModelProviderInfo,
    check: &F,
) -> (r: (Result<(), String>, Ghost<Option<Seq<char>>>))
    requires
        setting_problem(id@, *provider) is None ==> call_requires(*check, (provider,)),
    ensures
        setting_problem(id@, *provider) is None ==> answered(*check, *provider, r.1@),
        match r.0 {
            Ok(_) => entry_problem(id@, *provider, r.1@) is None,
            Err(message) => entry_problem(id@, *provider, r.1@) == Some(message@),
        },
{
    let mut message = "model_providers.".to_owned();
    message.append(id.as_str());
    let bedrock: bool = text::same_text(id.as_str(), AMAZON_BEDROCK_PROVIDER_ID)
        || text::same_text(id.as_str(), AMAZON_BEDROCK_RUNTIME_PROVIDER_ID);
    if !bedrock {
        if provider.aws {
            message.append(
                ": provider aws is only supported for `amazon-bedrock` or `amazon-bedrock-runtime`",
            );
            return (Err(message), Ghost(None));
        }
        let chars = text::chars_of(provider.name.as_str());
        if text::trimmed(chars.as_slice()).len() == 0 {
            message.append(": provider name must not be empty");
            return (Err(message), Ghost(None));
        }
    }
    let checked = check(provider);
    assert(call_ensures(*check, (provider,), checked));
    match checked {
        Ok(_) => (Ok(()), Ghost(None)),
        Err(problem) => {
            message.append(": ");
            message.append(problem.as_str());
            let ghost answer = Some(problem@);
            (Err(message), Ghost(answer))
        },
    }
}

/// Refuses providers that take a built-in id, or that are wrong one by one. The
/// message tells of the first that is wrong. `check` says what is wrong with a
/// provider on its own, if anything is.
pub fn validate_model_providers<F: Fn(&ModelProviderInfo) -> Result<(), String>>(
    providers: &Vec<(String, ModelProviderInfo)>,
    check: &F,
) -> (r: Result<(), String>)
    requires
        forall|k: int|
            0 <= k < providers@.len() && setting_problem(
                (#[trigger] providers@[k]).0@,
                providers@[k].1,
            ) is None ==> call_requires(*check, (&providers@[k].1,)),
    ensures
        if reserved_conflicts(providers@).len() > 0 {
            r matches Err(message) && message@ == reserved_text(providers@)
        } else {
            exists|answers: Seq<Option<Seq<char>>>| #[trigger]
                are_answers(*check, providers@, answers) && match r {
                    Ok(_) => first_problem(providers@, answers, providers@.len() as int) is None,
                    Err(message) => first_problem(providers@, answers, providers@.len() as int)
                        == Some(message@),
                }
        },
{
    if let Err(message) = validate_reserved_model_provider_ids(providers) {
        return Err(message);
    }
    let ghost mut answers: Seq<Option<Seq<char>>> = Seq::new(providers@.len(), |k: int| None);
    let mut i: usize = 0;
    while i < providers.len()
        invariant
            i <= providers@.len(),
            answers.len() == providers@.len(),
            reserved_conflicts(providers@).len() == 0,
            forall|k: int|
                0 <= k < providers@.len() && setting_problem(
                    (#[trigger] providers@[k]).0@,
                    providers@[k].1,
                ) is None ==> call_requires(*check, (&providers@[k].1,)),
            first_problem(providers@, answers, i as int) is None,
            forall|k: int|
                0 <= k < i && is_asked_about(providers@, answers, k) ==> answered(
                    *check,
                    providers@[k].1,
                    #[trigger] answers[k],
                ),
        decreases providers@.len() - i,
    {
        let ghost before = answers;
        let (checked, answer) = check_provider(&providers[i].0, &providers[i].1, check);
        proof {
            answers = before.update(i as int, answer@);
            assert forall|k: int|
                0 <= k < i + 1 && is_asked_about(providers@, answers, k) implies answered(
                *check,
                providers@[k].1,
                #[trigger] answers[k],
            ) by {
                lemma_same_answers(providers@, before, answers, k);
                if k < i {
                    assert(answers[k] == before[k]);
                }
            }
            lemma_same_answers(providers@, before, answers, i as int);
        }
        if let Err(message) = checked {
            proof {
                lemma_first_problem_stays(providers@, answers, i + 1, providers@.len() as int);
                assert forall|k: int|
                    0 <= k < providers@.len() && is_asked_about(
                        providers@,
                        answers,
                        k,
                    ) implies answered(*check, providers@[k].1, #[trigger] answers[k]) by {
                    if k > i {
                        lemma_first_problem_stays(providers@, answers, i + 1, k);
                    }
                }
                assert(are_answers(*check, providers@, answers));
            }
            return Err(message);
        }
        i = i + 1;
    }
    assert(are_answers(*check, providers@, answers));
    Ok(())
}

proof fn lemma_same_answers(
    providers: Seq<(String, ModelProviderInfo)>,
    a: Seq<Option<Seq<char>>>,
    b: Seq<Option<Seq<char>>>,
    n: int,
)
    requires
        forall|k: int| 0 <= k < n ==> a[k] == b[k],
    ensures
        first_problem(providers, a, n) == first_problem(providers, b, n),
    decreases n,
{
    if n > 0 {
        lemma_same_answers(providers, a, b, n - 1);
        assert(a[n - 1] == b[n - 1]);
    }
}

proof fn lemma_first_problem_stays(
    providers: Seq<(String, ModelProviderInfo)>,
    answers: Seq<Option<Seq<char>>>,
    n: int,
    m: int,
)
    requires
        0 <= n <= m,
        first_problem(providers, answers, n) is Some,
    ensures
        first_problem(providers, answers, m) == first_problem(providers, answers, n),
    decreases m - n,
{
    if n < m {
        lemma_first_problem_stays(providers, answers, n, m - 1);
    }
}

/// Why a local provider is refused.
#[derive(Debug, PartialEq, Eq)]
pub enum OssProviderError {
    /// The provider `ollama-chat` is gone.
    OllamaChatRemoved,
    /// There is no such provider; the message names those that there are.
    Unknown(String),
}

/// Refuses a local provider that is not one of those that there are.
pub fn validate_oss_provider(provider: &str) -> (r: Result<(), OssProviderError>)
    ensures
        match r {
            Ok(_) => provider@ == LMSTUDIO_OSS_PROVIDER_ID@ || provider@ == OLLAMA_OSS_PROVIDER_ID@,
            Err(OssProviderError::OllamaChatRemoved) => provider@
                == LEGACY_OLLAMA_CHAT_PROVIDER_ID@,
            Err(OssProviderError::Unknown(message)) => provider@ != LMSTUDIO_OSS_PROVIDER_ID@
                && provider@ != OLLAMA_OSS_PROVIDER_ID@ && provider@
                != LEGACY_OLLAMA_CHAT_PROVIDER_ID@ && message@ == "Invalid OSS provider '"@
                + provider@ + "'. Must be one of: lmstudio, ollama"@,
        },
{
    proof {
        reveal_strlit("lmstudio");
        reveal_strlit("ollama");
        reveal_strlit("ollama-chat");
    }
    if text::same_text(provider, LMSTUDIO_OSS_PROVIDER_ID) || text::same_text(
        provider,
        OLLAMA_OSS_PROVIDER_ID,
    ) {
        return Ok(());
    }
    if text::same_text(provider, LEGACY_OLLAMA_CHAT_PROVIDER_ID) {
        return Err(OssProviderError::OllamaChatRemoved);
    }
    let mut message = "Invalid OSS provider '".to_owned();
    message.append(provider);
    message.append("'. Must be one of: lmstudio, ollama");
    Err(OssProviderError::Unknown(message))
}

} // verus!
