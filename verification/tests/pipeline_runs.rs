use meetily_core::pipeline::{
    LlmRequest, Pipeline, PipelineError, PromptSet, ReportTemplate, StepResult,
};
use meetily_core::strategy::{select_strategy, ProviderCapability, Strategy};

fn prompts() -> PromptSet {
    PromptSet {
        chunk_system: "You summarize transcript chunks.".to_string(),
        chunk_user_template: "Summarize this chunk:\n{}".to_string(),
        combine_system: "You merge partial summaries.".to_string(),
        combine_user_template: "Merge these summaries:\n{}".to_string(),
        final_system_template: "Follow these instructions:\n{}\nFill this skeleton:\n{}".to_string(),
    }
}

fn template() -> Option<ReportTemplate> {
    Some(ReportTemplate {
        markdown_skeleton: "# Meeting\n## Notes".to_string(),
        section_instructions: "Keep the notes short.".to_string(),
    })
}

#[test]
fn unbounded_provider_always_single_pass() {
    let long = "a".repeat(100_000);
    assert_eq!(
        select_strategy(ProviderCapability::UnboundedContext, &long, 0),
        Strategy::SinglePass
    );
    assert_eq!(
        select_strategy(ProviderCapability::UnboundedContext, "", 4000),
        Strategy::SinglePass
    );
}

#[test]
fn bounded_provider_switches_at_the_threshold() {
    // 36 characters estimate to 9 tokens: one below a threshold of 10
    let below = "b".repeat(36);
    assert_eq!(
        select_strategy(ProviderCapability::BoundedContext, &below, 10),
        Strategy::SinglePass
    );
    // 40 characters estimate to exactly 10 tokens: multi-level
    let at = "b".repeat(40);
    assert_eq!(
        select_strategy(ProviderCapability::BoundedContext, &at, 10),
        Strategy::MultiLevel
    );
}

fn expect_continue(r: StepResult) -> LlmRequest {
    match r {
        StepResult::Continue(req) => req,
        _ => panic!("expected the pipeline to continue"),
    }
}

#[test]
fn single_pass_reports_one_chunk_whatever_the_length() {
    let transcript = "the meeting went long ".repeat(3000);
    let (mut p, req) = Pipeline::start(
        &transcript,
        ProviderCapability::UnboundedContext,
        4000,
        template(),
        "standard_meeting",
        prompts(),
        "",
    )
    .expect("single-pass start");
    assert_eq!(p.chunk_total(), 0);
    assert!(req.user_prompt.contains("<transcript_chunks>"));
    assert!(req.user_prompt.contains(&transcript));
    assert!(!req.user_prompt.contains("<user_context>"));
    match p.step(Ok("```markdown\n# Report\n```".to_string())) {
        StepResult::Finished(res) => {
            assert_eq!(res.markdown, "# Report");
            assert_eq!(res.chunk_count, 1);
        },
        _ => panic!("expected the run to finish"),
    }
}

#[test]
fn multi_level_tolerates_one_failed_chunk() {
    // 6000 token-free characters, threshold 1000: chunk size 700 tokens
    // (2800 chars), overlap 100 tokens, step 2400 -> exactly 3 chunks
    let transcript = "a".repeat(6000);
    let (mut p, req1) = Pipeline::start(
        &transcript,
        ProviderCapability::BoundedContext,
        1000,
        template(),
        "standard_meeting",
        prompts(),
        "watch the budget",
    )
    .expect("multi-level start");
    assert_eq!(p.chunk_total(), 3);
    assert_eq!(req1.system_prompt, "You summarize transcript chunks.");
    assert!(req1.user_prompt.starts_with("Summarize this chunk:\n"));

    let req2 = expect_continue(p.step(Ok("S1".to_string())));
    assert!(req2.user_prompt.starts_with("Summarize this chunk:\n"));
    let req3 = expect_continue(p.step(Err("backend hiccup".to_string())));
    assert!(req3.user_prompt.starts_with("Summarize this chunk:\n"));

    // chunk 2 failed: combination gets chunks 1 and 3 only
    let combine = expect_continue(p.step(Ok("S3".to_string())));
    assert_eq!(combine.system_prompt, "You merge partial summaries.");
    assert_eq!(combine.user_prompt, "Merge these summaries:\nS1\n---\nS3");

    let final_req = expect_continue(p.step(Ok("combined story".to_string())));
    assert_eq!(
        final_req.system_prompt,
        "Follow these instructions:\nKeep the notes short.\nFill this skeleton:\n# Meeting\n## Notes"
    );
    assert!(final_req.user_prompt.contains("<transcript_chunks>\ncombined story\n</transcript_chunks>"));
    assert!(final_req.user_prompt.contains("<user_context>\nwatch the budget\n</user_context>"));

    match p.step(Ok("# Report\nbody".to_string())) {
        StepResult::Finished(res) => {
            assert_eq!(res.markdown, "# Report\nbody");
            assert_eq!(res.chunk_count, 2);
        },
        _ => panic!("expected the run to finish"),
    }
}

#[test]
fn multi_level_single_survivor_skips_combination() {
    let transcript = "a".repeat(6000);
    let (mut p, _req1) = Pipeline::start(
        &transcript,
        ProviderCapability::BoundedContext,
        1000,
        template(),
        "standard_meeting",
        prompts(),
        "",
    )
    .expect("multi-level start");
    let _req2 = expect_continue(p.step(Err("x".to_string())));
    let _req3 = expect_continue(p.step(Ok("only survivor".to_string())));
    // two failures, one success: straight to the final call
    let final_req = expect_continue(p.step(Err("y".to_string())));
    assert!(final_req.user_prompt.contains("<transcript_chunks>\nonly survivor\n</transcript_chunks>"));
    match p.step(Ok("done".to_string())) {
        StepResult::Finished(res) => {
            assert_eq!(res.markdown, "done");
            assert_eq!(res.chunk_count, 1);
        },
        _ => panic!("expected the run to finish"),
    }
}

#[test]
fn all_chunk_failures_are_fatal() {
    let transcript = "a".repeat(6000);
    let (mut p, _req1) = Pipeline::start(
        &transcript,
        ProviderCapability::BoundedContext,
        1000,
        template(),
        "standard_meeting",
        prompts(),
        "",
    )
    .expect("multi-level start");
    let _req2 = expect_continue(p.step(Err("e1".to_string())));
    let _req3 = expect_continue(p.step(Err("e2".to_string())));
    match p.step(Err("e3".to_string())) {
        StepResult::Fatal(PipelineError::NoChunksSucceeded) => {},
        _ => panic!("expected the distinct total-failure error and no markdown"),
    }
    assert!(!p.is_active());
}

#[test]
fn combination_failure_is_fatal() {
    let transcript = "a".repeat(6000);
    let (mut p, _req1) = Pipeline::start(
        &transcript,
        ProviderCapability::BoundedContext,
        1000,
        template(),
        "standard_meeting",
        prompts(),
        "",
    )
    .expect("multi-level start");
    let _req2 = expect_continue(p.step(Ok("S1".to_string())));
    let _req3 = expect_continue(p.step(Ok("S2".to_string())));
    let _combine = expect_continue(p.step(Ok("S3".to_string())));
    match p.step(Err("merge backend down".to_string())) {
        StepResult::Fatal(PipelineError::CombineFailed(e)) => {
            assert_eq!(e, "merge backend down");
        },
        _ => panic!("expected the combination failure to propagate"),
    }
}

#[test]
fn final_call_failure_is_fatal() {
    let (mut p, _req) = Pipeline::start(
        "short transcript",
        ProviderCapability::UnboundedContext,
        4000,
        template(),
        "standard_meeting",
        prompts(),
        "",
    )
    .expect("single-pass start");
    match p.step(Err("generation failed".to_string())) {
        StepResult::Fatal(PipelineError::FinalCallFailed(e)) => {
            assert_eq!(e, "generation failed");
        },
        _ => panic!("expected the final failure to propagate"),
    }
}

#[test]
fn unknown_template_is_fatal() {
    let r = Pipeline::start(
        "text",
        ProviderCapability::UnboundedContext,
        4000,
        None,
        "no_such_template",
        prompts(),
        "",
    );
    match r {
        Err(PipelineError::TemplateNotFound(id)) => assert_eq!(id, "no_such_template"),
        _ => panic!("expected template resolution failure"),
    }
}
