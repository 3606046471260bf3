//! Voice commands that change the configuration: enabling or disabling the
//! polishing step and switching the correction scene. Each command is
//! planned as a new configuration to save, or as feedback alone.

use vstd::prelude::*;
use crate::matching::{SkillMatch, SkillMatchModel};
use crate::scenes::{extract_scene_query, resolve_scene, SceneResolveModel, SceneResolveResult};
use crate::skills::{DISABLE_POLISH_SKILL_ID, ENABLE_POLISH_SKILL_ID, SWITCH_POLISH_SCENE_SKILL_ID};
use crate::storage::{has_profile_id, llm_config_valid_spec, AppConfig, AppConfigModel, LlmConfigModel};
use crate::text::{concat3, join_strings, str_equal};

verus! {

/// A message shown to the user after a voice command, with its level
/// (`info`, `success` or `error`).
#[derive(Debug, PartialEq, Eq)]
pub struct VoiceCommandFeedback {
    pub level: String,
    pub message: String,
}

/// Mathematical model of a [`VoiceCommandFeedback`].
pub struct FeedbackModel {
    pub level: Seq<char>,
    pub message: Seq<char>,
}

impl View for VoiceCommandFeedback {
    type V = FeedbackModel;

    open spec fn view(&self) -> FeedbackModel {
        FeedbackModel { level: self.level@, message: self.message@ }
    }
}

/// What a configuration command comes to: a configuration to save with its
/// feedback, or feedback alone.
#[derive(Debug)]
pub enum ConfigSkillPlan {
    Save { config: AppConfig, feedback: VoiceCommandFeedback },
    Feedback(VoiceCommandFeedback),
}

/// Mathematical model of a [`ConfigSkillPlan`].
pub enum PlanModel {
    Save { config: AppConfigModel, feedback: FeedbackModel },
    Feedback(FeedbackModel),
}

impl View for ConfigSkillPlan {
    type V = PlanModel;

    open spec fn view(&self) -> PlanModel {
        match self {
            ConfigSkillPlan::Save { config, feedback } => PlanModel::Save {
                config: config@,
                feedback: feedback@,
            },
            ConfigSkillPlan::Feedback(feedback) => PlanModel::Feedback(feedback@),
        }
    }
}

/// Feedback with the given level and message.
pub open spec fn feedback(level: Seq<char>, message: Seq<char>) -> FeedbackModel {
    FeedbackModel { level, message }
}

/// `cfg` with the polishing step switched on or off.
pub open spec fn with_enabled(cfg: AppConfigModel, enabled: bool) -> AppConfigModel {
    AppConfigModel { llm_config: LlmConfigModel { enabled, ..cfg.llm_config }, ..cfg }
}

/// `cfg` with another active scene.
pub open spec fn with_active_profile(cfg: AppConfigModel, id: Seq<char>) -> AppConfigModel {
    AppConfigModel { llm_config: LlmConfigModel { active_profile_id: id, ..cfg.llm_config }, ..cfg }
}

/// The plan for a scene switch to the spoken name `query`.
pub open spec fn switch_plan_spec(query: Seq<char>, cfg: AppConfigModel) -> PlanModel {
    if query.len() == 0 {
        PlanModel::Feedback(feedback("error"@, "未识别到要切换的润色场景"@))
    } else {
        match crate::scenes::resolve_scene_spec(cfg.llm_config.profiles, query) {
            SceneResolveModel::Unique { profile_id, profile_name } => {
                if cfg.llm_config.active_profile_id == profile_id {
                    PlanModel::Feedback(feedback("info"@, "当前已经是场景“"@ + profile_name + "”"@))
                } else {
                    PlanModel::Save {
                        config: with_active_profile(cfg, profile_id),
                        feedback: feedback("success"@, "已切换到场景“"@ + profile_name + "”"@),
                    }
                }
            },
            SceneResolveModel::NoMatch => PlanModel::Feedback(
                feedback("error"@, "未找到匹配场景："@ + query + ""@),
            ),
            SceneResolveModel::Ambiguous(names) => PlanModel::Feedback(
                feedback("error"@, "匹配到多个场景："@ + crate::text::join_with(names, "、"@) + ""@),
            ),
        }
    }
}

/// The plan for the configuration command `m` found in `transcript`, where
/// `next_start` is where the next matched command begins, if any.
pub open spec fn plan_spec(
    transcript: Seq<char>,
    m: SkillMatchModel,
    next_start: Option<int>,
    cfg: AppConfigModel,
) -> Result<PlanModel, Seq<char>> {
    if m.skill_id == ENABLE_POLISH_SKILL_ID@ {
        if cfg.llm_config.enabled {
            Ok(PlanModel::Feedback(feedback("info"@, "润色已经处于启用状态"@)))
        } else {
            Ok(
                PlanModel::Save {
                    config: with_enabled(cfg, true),
                    feedback: feedback("success"@, "已启用润色"@),
                },
            )
        }
    } else if m.skill_id == DISABLE_POLISH_SKILL_ID@ {
        if !cfg.llm_config.enabled {
            Ok(PlanModel::Feedback(feedback("info"@, "润色已经处于关闭状态"@)))
        } else {
            Ok(
                PlanModel::Save {
                    config: with_enabled(cfg, false),
                    feedback: feedback("success"@, "已关闭润色"@),
                },
            )
        }
    } else if m.skill_id == SWITCH_POLISH_SCENE_SKILL_ID@ {
        Ok(
            switch_plan_spec(
                crate::scenes::extract_scene_query_spec(transcript, m.end, next_start),
                cfg,
            ),
        )
    } else {
        Err("Unsupported config skill: "@ + m.skill_id + ""@)
    }
}

/// A configuration command changes nothing but whether polishing is on or
/// which scene is active, and it only ever activates one of the scenes; so
/// usable LLM settings stay usable.
pub proof fn law_config_commands_keep_settings_usable(
    transcript: Seq<char>,
    m: SkillMatchModel,
    next_start: Option<int>,
    cfg: AppConfigModel,
)
    ensures
        plan_spec(transcript, m, next_start, cfg) matches Ok(PlanModel::Save { config, .. }) ==> {
            &&& config == with_enabled(cfg, config.llm_config.enabled) || (config == with_active_profile(
                cfg,
                config.llm_config.active_profile_id,
            ) && has_profile_id(cfg.llm_config.profiles, config.llm_config.active_profile_id))
            &&& llm_config_valid_spec(cfg.llm_config) ==> llm_config_valid_spec(config.llm_config)
        },
{
    let query = crate::scenes::extract_scene_query_spec(transcript, m.end, next_start);
    crate::scenes::lemma_resolved_scene_exists(cfg.llm_config.profiles, query);
}

/// The configuration after a planned command: the one saved, or the
/// unchanged one when the command only gives feedback or fails.
pub open spec fn config_after(plan: Result<PlanModel, Seq<char>>, cfg: AppConfigModel) -> AppConfigModel {
    match plan {
        Ok(PlanModel::Save { config, .. }) => config,
        _ => cfg,
    }
}

/// Configuration commands compose: enabling polishing and then switching the
/// scene, each applied to the configuration the previous one left, ends with
/// polishing on, the scenes unchanged, and only the active scene possibly
/// changed besides.
pub proof fn law_config_commands_compose(
    transcript: Seq<char>,
    enable: SkillMatchModel,
    switch: SkillMatchModel,
    next_start: Option<int>,
    cfg: AppConfigModel,
)
    requires
        enable.skill_id == ENABLE_POLISH_SKILL_ID@,
        switch.skill_id == SWITCH_POLISH_SCENE_SKILL_ID@,
    ensures
        ({
            let c1 = config_after(plan_spec(transcript, enable, Some(switch.start), cfg), cfg);
            let c2 = config_after(plan_spec(transcript, switch, next_start, c1), c1);
            &&& c1 == with_enabled(cfg, true)
            &&& c2.llm_config.enabled
            &&& c2 == with_active_profile(with_enabled(cfg, true), c2.llm_config.active_profile_id)
        }),
{
    reveal_strlit("enable_polish");
    reveal_strlit("disable_polish");
    reveal_strlit("switch_polish_scene");
    assert(SWITCH_POLISH_SCENE_SKILL_ID@.len() != ENABLE_POLISH_SKILL_ID@.len());
    assert(SWITCH_POLISH_SCENE_SKILL_ID@.len() != DISABLE_POLISH_SKILL_ID@.len());
    let c1 = config_after(plan_spec(transcript, enable, Some(switch.start), cfg), cfg);
    assert(c1 =~= with_enabled(cfg, true));
    let c2 = config_after(plan_spec(transcript, switch, next_start, c1), c1);
    assert(c2 =~= with_active_profile(with_enabled(cfg, true), c2.llm_config.active_profile_id));
}

/// Feedback with the given level and message.
fn make_feedback(level: &str, message: String) -> (r: VoiceCommandFeedback)
    ensures
        r@ == feedback(level@, message@),
{
    VoiceCommandFeedback { level: String::from_str(level), message }
}

/// Plans the scene switch to the spoken name `query`.
fn plan_scene_switch(query: String, config: &AppConfig) -> (r: ConfigSkillPlan)
    ensures
        r@ == switch_plan_spec(query@, config@),
{
    if query.as_str().is_empty() {
        return ConfigSkillPlan::Feedback(
            make_feedback("error", String::from_str("未识别到要切换的润色场景")),
        );
    }
    match resolve_scene(&config.llm_config.profiles, query.as_str()) {
        SceneResolveResult::Unique { profile_id, profile_name } => {
            if config.llm_config.active_profile_id == profile_id {
                ConfigSkillPlan::Feedback(
                    make_feedback("info", concat3("当前已经是场景“", profile_name.as_str(), "”")),
                )
            } else {
                let mut next = config.clone();
                next.llm_config.active_profile_id = profile_id;
                proof {
                    assert(next@ == with_active_profile(config@, next.llm_config.active_profile_id@));
                }
                ConfigSkillPlan::Save {
                    config: next,
                    feedback: make_feedback(
                        "success",
                        concat3("已切换到场景“", profile_name.as_str(), "”"),
                    ),
                }
            }
        },
        SceneResolveResult::NoMatch => ConfigSkillPlan::Feedback(
            make_feedback("error", concat3("未找到匹配场景：", query.as_str(), "")),
        ),
        SceneResolveResult::Ambiguous(names) => {
            let joined = join_strings(&names, "、");
            ConfigSkillPlan::Feedback(
                make_feedback("error", concat3("匹配到多个场景：", joined.as_str(), "")),
            )
        },
    }
}

/// Plans the configuration command `skill_match` found in `transcript`:
/// enabling or disabling the polishing step, or switching the scene to the
/// name spoken after it (up to `next_match`). Fails for any other command.
pub fn plan_config_skill_update(
    transcript: &str,
    skill_match: &SkillMatch,
    next_match: Option<&SkillMatch>,
    config: &AppConfig,
) -> (r: Result<ConfigSkillPlan, String>)
    ensures
        match r {
            Ok(plan) => plan_spec(
                transcript@,
                skill_match@,
                match next_match {
                    Some(n) => Some(n.start as int),
                    None => None,
                },
                config@,
            ) == Ok::<PlanModel, Seq<char>>(plan@),
            Err(e) => plan_spec(
                transcript@,
                skill_match@,
                match next_match {
                    Some(n) => Some(n.start as int),
                    None => None,
                },
                config@,
            ) == Err::<PlanModel, Seq<char>>(e@),
        },
{
    let id = skill_match.skill_id.as_str();
    if str_equal(id, ENABLE_POLISH_SKILL_ID) {
        if config.llm_config.enabled {
            return Ok(
                ConfigSkillPlan::Feedback(
                    make_feedback("info", String::from_str("润色已经处于启用状态")),
                ),
            );
        }
        let mut next = config.clone();
        next.llm_config.enabled = true;
        proof {
            assert(next@ == with_enabled(config@, true));
        }
        Ok(
            ConfigSkillPlan::Save {
                config: next,
                feedback: make_feedback("success", String::from_str("已启用润色")),
            },
        )
    } else if str_equal(id, DISABLE_POLISH_SKILL_ID) {
        if !config.llm_config.enabled {
            return Ok(
                ConfigSkillPlan::Feedback(
                    make_feedback("info", String::from_str("润色已经处于关闭状态")),
                ),
            );
        }
        let mut next = config.clone();
        next.llm_config.enabled = false;
        proof {
            assert(next@ == with_enabled(config@, false));
        }
        Ok(
            ConfigSkillPlan::Save {
                config: next,
                feedback: make_feedback("success", String::from_str("已关闭润色")),
            },
        )
    } else if str_equal(id, SWITCH_POLISH_SCENE_SKILL_ID) {
        let query = extract_scene_query(transcript, skill_match, next_match);
        Ok(plan_scene_switch(query, config))
    } else {
        Err(concat3("Unsupported config skill: ", id, ""))
    }
}

/// The feedback when a configuration change could not be saved.
pub fn config_update_failure(error: &str) -> (r: VoiceCommandFeedback)
    ensures
        r@ == feedback("error"@, "配置更新失败："@ + error@),
{
    make_feedback("error", crate::text::concat2("配置更新失败：", error))
}

} // verus!
