//! The pipeline orchestrator, as a state machine: it decides the
//! summarization strategy, hands out one LLM request at a time, and
//! consumes each call's outcome until the final report is ready.
//!
//! The caller owns the transport: it performs each returned
//! [`LlmRequest`] against its LLM backend and feeds the outcome back
//! through [`Pipeline::step`]. Per-chunk failures are tolerated and the
//! chunk skipped; a failed combination or final call, or a run in which
//! no chunk succeeded at all, is fatal.

use vstd::prelude::*;
use crate::chunker::{chunk_text, chunks_of, step_of, lemma_spans_from_wf};
use crate::estimator::estimated_tokens;
use crate::prompting::{join_with, joined, subst_all, subst_first, substitute_all, substitute_first};
use crate::sanitizer::{clean_llm_markdown_output, sanitize_spec};
use crate::strategy::{select_strategy, strategy_for, ProviderCapability, Strategy};

verus! {

/// The tokens reserved out of the context window for prompt
/// scaffolding when sizing chunks.
pub const CHUNK_HEADROOM_TOKENS: usize = 300;

/// The fixed overlap between neighbouring chunks, in tokens.
pub const CHUNK_OVERLAP_TOKENS: usize = 100;

/// The localized prompt templates the pipeline substitutes into; each
/// `*_template` carries a `{}` placeholder for the content.
pub struct PromptSet {
    pub chunk_system: String,
    pub chunk_user_template: String,
    pub combine_system: String,
    pub combine_user_template: String,
    pub final_system_template: String,
}

/// A resolved report template: the markdown skeleton to fill in and
/// the per-section instructions.
pub struct ReportTemplate {
    pub markdown_skeleton: String,
    pub section_instructions: String,
}

/// One LLM call the caller is asked to perform.
pub struct LlmRequest {
    pub system_prompt: String,
    pub user_prompt: String,
}

/// A fatal pipeline failure.
#[derive(Debug)]
pub enum PipelineError {
    /// Every chunk call of a multi-level run failed.
    NoChunksSucceeded,
    /// The combination call failed; carries the transport's error.
    CombineFailed(String),
    /// The template identifier could not be resolved.
    TemplateNotFound(String),
    /// The final generation call failed; carries the transport's error.
    FinalCallFailed(String),
}

/// The finished report: sanitized markdown plus the number of chunks
/// that were successfully summarized (1 for single-pass).
pub struct SummaryResult {
    pub markdown: String,
    pub chunk_count: u64,
}

/// Where the pipeline stands.
#[derive(Clone, Copy, Debug, PartialEq, Eq, Structural)]
pub enum Phase {
    /// Multi-level: chunk calls are going out one by one.
    SummarizingChunks,
    /// Multi-level: the combination call is in flight.
    Combining,
    /// The final generation call is in flight.
    Finalizing,
    /// A report was produced.
    Complete,
    /// A fatal error was reported.
    Failed,
}

/// What one step of the pipeline asks of the caller next.
pub enum StepResult {
    /// Perform this request and feed the outcome back in.
    Continue(LlmRequest),
    /// The run is over; here is the report.
    Finished(SummaryResult),
    /// The run failed fatally.
    Fatal(PipelineError),
}

/// Ghost image of [`PromptSet`].
pub ghost struct PromptSetModel {
    pub chunk_system: Seq<char>,
    pub chunk_user_template: Seq<char>,
    pub combine_system: Seq<char>,
    pub combine_user_template: Seq<char>,
    pub final_system_template: Seq<char>,
}

/// Ghost image of [`ReportTemplate`].
pub ghost struct TemplateModel {
    pub markdown_skeleton: Seq<char>,
    pub section_instructions: Seq<char>,
}

/// Ghost image of [`LlmRequest`].
pub ghost struct RequestModel {
    pub system_prompt: Seq<char>,
    pub user_prompt: Seq<char>,
}

/// Ghost image of [`PipelineError`].
pub ghost enum ErrorModel {
    NoChunks,
    CombineFailed(Seq<char>),
    TemplateMissing(Seq<char>),
    FinalFailed(Seq<char>),
}

/// Ghost image of [`StepResult`].
pub ghost enum StepModel {
    KeepGoing(RequestModel),
    Finished(Seq<char>, int),
    Aborted(ErrorModel),
}

/// Ghost image of [`Pipeline`].
pub ghost struct PipelineModel {
    pub phase: Phase,
    pub chunks: Seq<Seq<char>>,
    pub awaiting: int,
    pub summaries: Seq<Seq<char>>,
    pub content: Seq<char>,
    pub chunk_count: int,
    pub prompts: PromptSetModel,
    pub template: TemplateModel,
    pub custom_context: Seq<char>,
}

impl View for PromptSet {
    type V = PromptSetModel;

    open spec fn view(&self) -> PromptSetModel {
        PromptSetModel {
            chunk_system: self.chunk_system@,
            chunk_user_template: self.chunk_user_template@,
            combine_system: self.combine_system@,
            combine_user_template: self.combine_user_template@,
            final_system_template: self.final_system_template@,
        }
    }
}

impl View for ReportTemplate {
    type V = TemplateModel;

    open spec fn view(&self) -> TemplateModel {
        TemplateModel {
            markdown_skeleton: self.markdown_skeleton@,
            section_instructions: self.section_instructions@,
        }
    }
}

impl View for LlmRequest {
    type V = RequestModel;

    open spec fn view(&self) -> RequestModel {
        RequestModel { system_prompt: self.system_prompt@, user_prompt: self.user_prompt@ }
    }
}

impl View for PipelineError {
    type V = ErrorModel;

    open spec fn view(&self) -> ErrorModel {
        match self {
            PipelineError::NoChunksSucceeded => ErrorModel::NoChunks,
            PipelineError::CombineFailed(e) => ErrorModel::CombineFailed(e@),
            PipelineError::TemplateNotFound(id) => ErrorModel::TemplateMissing(id@),
            PipelineError::FinalCallFailed(e) => ErrorModel::FinalFailed(e@),
        }
    }
}

impl View for StepResult {
    type V = StepModel;

    open spec fn view(&self) -> StepModel {
        match self {
            StepResult::Continue(req) => StepModel::KeepGoing(req@),
            StepResult::Finished(res) => StepModel::Finished(res.markdown@, res.chunk_count as int),
            StepResult::Fatal(e) => StepModel::Aborted(e@),
        }
    }
}

/// The pipeline's state between two LLM calls.
pub struct Pipeline {
    phase: Phase,
    chunks: Vec<String>,
    awaiting: usize,
    summaries: Vec<String>,
    content: String,
    chunk_count: u64,
    prompts: PromptSet,
    template: ReportTemplate,
    custom_context: String,
}

impl View for Pipeline {
    type V = PipelineModel;

    closed spec fn view(&self) -> PipelineModel {
        PipelineModel {
            phase: self.phase,
            chunks: self.chunks.deep_view(),
            awaiting: self.awaiting as int,
            summaries: self.summaries.deep_view(),
            content: self.content@,
            chunk_count: self.chunk_count as int,
            prompts: self.prompts@,
            template: self.template@,
            custom_context: self.custom_context@,
        }
    }
}

/// The separator placed between chunk summaries before combination.
pub open spec fn summary_separator() -> Seq<char> {
    "\n---\n"@
}

/// The user prompt of the final call: the content inside its delimiter
/// tag, followed by the caller's custom context inside its own tag
/// when one was given.
pub open spec fn final_user_prompt_spec(content: Seq<char>, custom: Seq<char>) -> Seq<char> {
    "\n<transcript_chunks>\n"@ + content + "\n</transcript_chunks>\n"@ + if custom.len() == 0 {
        Seq::<char>::empty()
    } else {
        "\n\nUser Provided Context:\n\n<user_context>\n"@ + custom + "\n</user_context>"@
    }
}

/// The request that summarizes the chunk currently awaited.
pub open spec fn chunk_request_model(m: PipelineModel) -> RequestModel {
    RequestModel {
        system_prompt: m.prompts.chunk_system,
        user_prompt: subst_all(m.prompts.chunk_user_template, m.chunks[m.awaiting]),
    }
}

/// The request that combines the surviving chunk summaries.
pub open spec fn combine_request_model(m: PipelineModel) -> RequestModel {
    RequestModel {
        system_prompt: m.prompts.combine_system,
        user_prompt: subst_all(
            m.prompts.combine_user_template,
            joined(m.summaries, summary_separator()),
        ),
    }
}

/// The final generation request: the language-specific system prompt
/// with the template's section instructions and markdown skeleton
/// substituted in turn, and the content-bearing user prompt.
pub open spec fn final_request_model(m: PipelineModel) -> RequestModel {
    RequestModel {
        system_prompt: subst_first(
            subst_first(m.prompts.final_system_template, m.template.section_instructions),
            m.template.markdown_skeleton,
        ),
        user_prompt: final_user_prompt_spec(m.content, m.custom_context),
    }
}

/// The state invariant the pipeline maintains between steps.
pub open spec fn wf_model(m: PipelineModel) -> bool {
    &&& m.awaiting <= m.chunks.len()
    &&& m.summaries.len() <= m.awaiting
    &&& (m.phase == Phase::SummarizingChunks ==> m.awaiting < m.chunks.len())
    &&& (m.phase == Phase::Combining ==> m.summaries.len() >= 2 && m.chunk_count
        == m.summaries.len())
    &&& (m.phase == Phase::Finalizing ==> m.chunk_count >= 1)
}

/// The phases in which the pipeline awaits a call's outcome.
pub open spec fn active_phase(p: Phase) -> bool {
    p == Phase::SummarizingChunks || p == Phase::Combining || p == Phase::Finalizing
}

/// One transition of the pipeline on a call outcome. Inactive phases
/// are never stepped (see [`Pipeline::step`]'s precondition); the model
/// maps them to a failure only for totality.
pub open spec fn step_model(m: PipelineModel, outcome: Result<Seq<char>, Seq<char>>) -> (
    PipelineModel,
    StepModel,
) {
    match m.phase {
        Phase::SummarizingChunks => {
            let collected = match outcome {
                Result::Ok(s) => m.summaries.push(s),
                Result::Err(_) => m.summaries,
            };
            let m2 = PipelineModel { summaries: collected, awaiting: m.awaiting + 1, ..m };
            if m2.awaiting < m2.chunks.len() {
                (m2, StepModel::KeepGoing(chunk_request_model(m2)))
            } else if m2.summaries.len() == 0 {
                (
                    PipelineModel { phase: Phase::Failed, ..m2 },
                    StepModel::Aborted(ErrorModel::NoChunks),
                )
            } else if m2.summaries.len() == 1 {
                let m3 = PipelineModel {
                    phase: Phase::Finalizing,
                    content: m2.summaries[0],
                    chunk_count: 1,
                    ..m2
                };
                (m3, StepModel::KeepGoing(final_request_model(m3)))
            } else {
                let m3 = PipelineModel {
                    phase: Phase::Combining,
                    chunk_count: m2.summaries.len() as int,
                    ..m2
                };
                (m3, StepModel::KeepGoing(combine_request_model(m3)))
            }
        },
        Phase::Combining => match outcome {
            Result::Ok(c) => {
                let m3 = PipelineModel { phase: Phase::Finalizing, content: c, ..m };
                (m3, StepModel::KeepGoing(final_request_model(m3)))
            },
            Result::Err(e) => (
                PipelineModel { phase: Phase::Failed, ..m },
                StepModel::Aborted(ErrorModel::CombineFailed(e)),
            ),
        },
        Phase::Finalizing => match outcome {
            Result::Ok(raw) => (
                PipelineModel { phase: Phase::Complete, ..m },
                StepModel::Finished(sanitize_spec(raw), m.chunk_count),
            ),
            Result::Err(e) => (
                PipelineModel { phase: Phase::Failed, ..m },
                StepModel::Aborted(ErrorModel::FinalFailed(e)),
            ),
        },
        _ => (m, StepModel::Aborted(ErrorModel::NoChunks)),
    }
}

/// The initial state and first request, or the fatal error, of a run.
pub open spec fn start_model(
    text: Seq<char>,
    capability: ProviderCapability,
    token_threshold: int,
    template: Option<TemplateModel>,
    template_id: Seq<char>,
    prompts: PromptSetModel,
    custom_context: Seq<char>,
) -> Result<(PipelineModel, RequestModel), ErrorModel> {
    match template {
        Option::None => Result::Err(ErrorModel::TemplateMissing(template_id)),
        Option::Some(t) => {
            if strategy_for(capability, estimated_tokens(text), token_threshold)
                == Strategy::SinglePass {
                let m = PipelineModel {
                    phase: Phase::Finalizing,
                    chunks: Seq::empty(),
                    awaiting: 0,
                    summaries: Seq::empty(),
                    content: text,
                    chunk_count: 1,
                    prompts: prompts,
                    template: t,
                    custom_context: custom_context,
                };
                Result::Ok((m, final_request_model(m)))
            } else {
                let m = PipelineModel {
                    phase: Phase::SummarizingChunks,
                    chunks: chunks_of(
                        text,
                        token_threshold - CHUNK_HEADROOM_TOKENS as int,
                        CHUNK_OVERLAP_TOKENS as int,
                    ),
                    awaiting: 0,
                    summaries: Seq::empty(),
                    content: Seq::empty(),
                    chunk_count: 0,
                    prompts: prompts,
                    template: t,
                    custom_context: custom_context,
                };
                Result::Ok((m, chunk_request_model(m)))
            }
        },
    }
}

/// The view of a call outcome.
pub open spec fn outcome_model(o: Result<String, String>) -> Result<Seq<char>, Seq<char>> {
    match o {
        Result::Ok(s) => Result::Ok(s@),
        Result::Err(e) => Result::Err(e@),
    }
}

/// The view of an optional resolved template.
pub open spec fn template_model(t: Option<ReportTemplate>) -> Option<TemplateModel> {
    match t {
        Option::Some(x) => Option::Some(x@),
        Option::None => Option::None,
    }
}

impl Pipeline {
    /// The pipeline's state invariant, for callers' preconditions.
    pub open spec fn wf(&self) -> bool {
        wf_model(self@)
    }

    /// The pipeline still awaits a call's outcome.
    pub fn is_active(&self) -> (r: bool)
        ensures
            r == active_phase(self@.phase),
    {
        self.phase == Phase::SummarizingChunks || self.phase == Phase::Combining || self.phase
            == Phase::Finalizing
    }

    /// How many chunks the transcript was split into (0 on the
    /// single-pass path, which never chunks).
    pub fn chunk_total(&self) -> (r: usize)
        ensures
            r == self@.chunks.len(),
    {
        self.chunks.len()
    }

    fn chunk_request(&self) -> (r: LlmRequest)
        requires
            0 <= self@.awaiting < self@.chunks.len(),
        ensures
            r@ == chunk_request_model(self@),
    {
        LlmRequest {
            system_prompt: self.prompts.chunk_system.clone(),
            user_prompt: substitute_all(
                self.prompts.chunk_user_template.as_str(),
                self.chunks[self.awaiting].as_str(),
            ),
        }
    }

    fn combine_request(&self) -> (r: LlmRequest)
        ensures
            r@ == combine_request_model(self@),
    {
        let body = join_with(&self.summaries, "\n---\n");
        LlmRequest {
            system_prompt: self.prompts.combine_system.clone(),
            user_prompt: substitute_all(self.prompts.combine_user_template.as_str(), body.as_str()),
        }
    }

    fn final_request(&self) -> (r: LlmRequest)
        ensures
            r@ == final_request_model(self@),
    {
        let once = substitute_first(
            self.prompts.final_system_template.as_str(),
            self.template.section_instructions.as_str(),
        );
        let system_prompt = substitute_first(once.as_str(), self.template.markdown_skeleton.as_str());
        let mut user_prompt = String::from_str("\n<transcript_chunks>\n");
        user_prompt.append(self.content.as_str());
        user_prompt.append("\n</transcript_chunks>\n");
        if !self.custom_context.as_str().is_empty() {
            user_prompt.append("\n\nUser Provided Context:\n\n<user_context>\n");
            user_prompt.append(self.custom_context.as_str());
            user_prompt.append("\n</user_context>");
        }
        assert(user_prompt@ =~= final_user_prompt_spec(self.content@, self.custom_context@));
        LlmRequest { system_prompt, user_prompt }
    }

    /// Opens a run: decides the strategy, chunks the transcript when
    /// multi-level summarization is needed, and returns the first
    /// request to perform — or the fatal error when the template could
    /// not be resolved.
    ///
    /// `token_threshold` must leave room for the chunk headroom
    /// whenever multi-level summarization would be chosen.
    pub fn start(
        text: &str,
        capability: ProviderCapability,
        token_threshold: usize,
        template: Option<ReportTemplate>,
        template_id: &str,
        prompts: PromptSet,
        custom_context: &str,
    ) -> (r: Result<(Pipeline, LlmRequest), PipelineError>)
        requires
            token_threshold <= usize::MAX / 4,
            (capability == ProviderCapability::BoundedContext && estimated_tokens(text@)
                >= token_threshold) ==> token_threshold > CHUNK_HEADROOM_TOKENS,
        ensures
            ({
                let sm = start_model(
                    text@,
                    capability,
                    token_threshold as int,
                    template_model(template),
                    template_id@,
                    prompts@,
                    custom_context@,
                );
                match r {
                    Result::Ok((p, req)) => sm is Ok && p@ == sm->Ok_0.0 && req@ == sm->Ok_0.1
                        && p.wf() && active_phase(p@.phase),
                    Result::Err(e) => sm is Err && e@ == sm->Err_0,
                }
            }),
    {
        let template = match template {
            Option::Some(t) => t,
            Option::None => {
                return Result::Err(PipelineError::TemplateNotFound(template_id.to_owned()));
            },
        };
        let strat = select_strategy(capability, text, token_threshold);
        if strat == Strategy::SinglePass {
            let p = Pipeline {
                phase: Phase::Finalizing,
                chunks: Vec::new(),
                awaiting: 0,
                summaries: Vec::new(),
                content: text.to_owned(),
                chunk_count: 1,
                prompts,
                template,
                custom_context: custom_context.to_owned(),
            };
            assert(p@.chunks =~= Seq::<Seq<char>>::empty());
            assert(p@.summaries =~= Seq::<Seq<char>>::empty());
            let req = p.final_request();
            Result::Ok((p, req))
        } else {
            let chunk_tokens = token_threshold - CHUNK_HEADROOM_TOKENS;
            let chunks = chunk_text(text, chunk_tokens, CHUNK_OVERLAP_TOKENS);
            proof {
                lemma_multi_level_has_chunks(text@, token_threshold as int);
            }
            let p = Pipeline {
                phase: Phase::SummarizingChunks,
                chunks,
                awaiting: 0,
                summaries: Vec::new(),
                content: String::new(),
                chunk_count: 0,
                prompts,
                template,
                custom_context: custom_context.to_owned(),
            };
            assert(p@.summaries =~= Seq::<Seq<char>>::empty());
            let req = p.chunk_request();
            Result::Ok((p, req))
        }
    }

    /// Feeds one call outcome in and moves the pipeline forward, as
    /// [`step_model`] describes: a skipped or collected chunk and the
    /// next chunk request, the switch to combination or finalization,
    /// the finished report, or a fatal error.
    pub fn step(&mut self, outcome: Result<String, String>) -> (r: StepResult)
        requires
            old(self).wf(),
            active_phase(old(self)@.phase),
        ensures
            final(self)@ == step_model(old(self)@, outcome_model(outcome)).0,
            r@ == step_model(old(self)@, outcome_model(outcome)).1,
            final(self).wf(),
    {
        match self.phase {
            Phase::SummarizingChunks => {
                match outcome {
                    Result::Ok(s) => {
                        self.summaries.push(s);
                        assert(self@.summaries =~= step_model(
                            old(self)@,
                            outcome_model(outcome),
                        ).0.summaries);
                    },
                    Result::Err(_) => {},
                }
                let total = self.chunks.len();
                assert(self.awaiting < total);
                self.awaiting = self.awaiting + 1;
                if self.awaiting < total {
                    let req = self.chunk_request();
                    StepResult::Continue(req)
                } else if self.summaries.len() == 0 {
                    self.phase = Phase::Failed;
                    StepResult::Fatal(PipelineError::NoChunksSucceeded)
                } else if self.summaries.len() == 1 {
                    self.content = self.summaries[0].clone();
                    self.chunk_count = 1;
                    self.phase = Phase::Finalizing;
                    let req = self.final_request();
                    StepResult::Continue(req)
                } else {
                    self.chunk_count = self.summaries.len() as u64;
                    self.phase = Phase::Combining;
                    let req = self.combine_request();
                    StepResult::Continue(req)
                }
            },
            Phase::Combining => match outcome {
                Result::Ok(c) => {
                    self.content = c;
                    self.phase = Phase::Finalizing;
                    let req = self.final_request();
                    StepResult::Continue(req)
                },
                Result::Err(e) => {
                    self.phase = Phase::Failed;
                    StepResult::Fatal(PipelineError::CombineFailed(e))
                },
            },
            Phase::Finalizing => match outcome {
                Result::Ok(raw) => {
                    self.phase = Phase::Complete;
                    let markdown = clean_llm_markdown_output(raw.as_str());
                    StepResult::Finished(SummaryResult { markdown, chunk_count: self.chunk_count })
                },
                Result::Err(e) => {
                    self.phase = Phase::Failed;
                    StepResult::Fatal(PipelineError::FinalCallFailed(e))
                },
            },
            Phase::Complete => {
                proof {
                    assert(false);
                }
                StepResult::Fatal(PipelineError::NoChunksSucceeded)
            },
            Phase::Failed => {
                proof {
                    assert(false);
                }
                StepResult::Fatal(PipelineError::NoChunksSucceeded)
            },
        }
    }
}

/// A whole run from state `m`: outcomes are consumed one per step
/// until the pipeline finishes or fails, or the outcomes run out.
pub open spec fn run_model(
    m: PipelineModel,
    outcomes: Seq<Result<Seq<char>, Seq<char>>>,
) -> (PipelineModel, Option<StepModel>)
    decreases outcomes.len(),
{
    if outcomes.len() == 0 {
        (m, Option::None)
    } else {
        let stepped = step_model(m, outcomes[0]);
        match stepped.1 {
            StepModel::KeepGoing(_) => run_model(stepped.0, outcomes.skip(1)),
            _ => (stepped.0, Option::Some(stepped.1)),
        }
    }
}

/// When every remaining chunk call fails, the chunk phase ends in the
/// distinct fatal error for total chunk failure, and no report is
/// produced.
pub proof fn lemma_all_failures_abort(
    m: PipelineModel,
    outcomes: Seq<Result<Seq<char>, Seq<char>>>,
)
    requires
        wf_model(m),
        m.phase == Phase::SummarizingChunks,
        m.summaries.len() == 0,
        outcomes.len() == m.chunks.len() - m.awaiting,
        forall|i: int| 0 <= i < outcomes.len() ==> outcomes[i] is Err,
    ensures
        run_model(m, outcomes).1 == Option::Some(StepModel::Aborted(ErrorModel::NoChunks)),
        run_model(m, outcomes).0.phase == Phase::Failed,
    decreases outcomes.len(),
{
    assert(outcomes[0] is Err);
    let m1 = step_model(m, outcomes[0]).0;
    if m.awaiting + 1 < m.chunks.len() {
        assert(forall|i: int|
            0 <= i < outcomes.skip(1).len() ==> outcomes.skip(1)[i] == outcomes[i + 1]);
        lemma_all_failures_abort(m1, outcomes.skip(1));
    }
}

/// Total chunk failure is fatal: a multi-level run in which every
/// chunk call fails reports that no chunks were processed, and yields
/// no markdown.
pub proof fn lemma_multi_level_total_failure(
    text: Seq<char>,
    capability: ProviderCapability,
    token_threshold: int,
    template: TemplateModel,
    template_id: Seq<char>,
    prompts: PromptSetModel,
    custom_context: Seq<char>,
    outcomes: Seq<Result<Seq<char>, Seq<char>>>,
)
    requires
        strategy_for(capability, estimated_tokens(text), token_threshold) == Strategy::MultiLevel,
        token_threshold > CHUNK_HEADROOM_TOKENS,
        outcomes.len() == chunks_of(
            text,
            token_threshold - CHUNK_HEADROOM_TOKENS as int,
            CHUNK_OVERLAP_TOKENS as int,
        ).len(),
        forall|i: int| 0 <= i < outcomes.len() ==> outcomes[i] is Err,
    ensures
        ({
            let sm = start_model(
                text,
                capability,
                token_threshold,
                Option::Some(template),
                template_id,
                prompts,
                custom_context,
            );
            sm is Ok && run_model(sm->Ok_0.0, outcomes).1 == Option::Some(
                StepModel::Aborted(ErrorModel::NoChunks),
            )
        }),
{
    lemma_multi_level_has_chunks(text, token_threshold);
    let sm = start_model(
        text,
        capability,
        token_threshold,
        Option::Some(template),
        template_id,
        prompts,
        custom_context,
    );
    lemma_all_failures_abort(sm->Ok_0.0, outcomes);
}

/// A single-pass run with an unbounded-context provider makes exactly
/// one generation call and reports a chunk count of 1, whatever the
/// transcript's length; its markdown is the sanitized model output.
pub proof fn lemma_single_pass_one_chunk(
    text: Seq<char>,
    token_threshold: int,
    template: TemplateModel,
    template_id: Seq<char>,
    prompts: PromptSetModel,
    custom_context: Seq<char>,
    raw: Seq<char>,
)
    ensures
        ({
            let sm = start_model(
                text,
                ProviderCapability::UnboundedContext,
                token_threshold,
                Option::Some(template),
                template_id,
                prompts,
                custom_context,
            );
            sm is Ok && step_model(sm->Ok_0.0, Result::Ok(raw)).1 == StepModel::Finished(
                sanitize_spec(raw),
                1,
            )
        }),
{
}

/// A multi-level run always has at least one chunk to work on.
pub proof fn lemma_multi_level_has_chunks(text: Seq<char>, token_threshold: int)
    requires
        estimated_tokens(text) >= token_threshold,
        token_threshold > CHUNK_HEADROOM_TOKENS,
    ensures
        chunks_of(text, token_threshold - CHUNK_HEADROOM_TOKENS as int, CHUNK_OVERLAP_TOKENS as int)
            .len() >= 1,
{
    let ct = token_threshold - CHUNK_HEADROOM_TOKENS as int;
    assert(text.len() as int + 3 >= 4 * token_threshold) by {
        assert(estimated_tokens(text) == (text.len() as int + 3) / 4);
        assert(text.len() as int + 3 >= 4 * ((text.len() as int + 3) / 4)) by (nonlinear_arith);
    };
    assert(text.len() > 0);
    if text.len() > ct * 4 {
        let step = step_of(ct, CHUNK_OVERLAP_TOKENS as int);
        assert(1 <= step <= ct * 4);
        lemma_spans_from_wf(text, ct * 4, step, 0);
    }
}

} // verus!
