use vecors::pipeline::{ParseEvent, Phase, PipelineRun, Step};
use vecors::progress::TrainerState;

fn start(name: &str) -> ParseEvent {
    ParseEvent::Start(name.as_bytes().to_vec())
}

fn end(name: &str) -> ParseEvent {
    ParseEvent::End(name.as_bytes().to_vec())
}

fn text(s: &str) -> ParseEvent {
    ParseEvent::Text(s.to_string())
}

fn running_state() -> TrainerState {
    let mut st = TrainerState::default();
    assert!(st.begin());
    st
}

fn feed(run: &mut PipelineRun, st: &mut TrainerState, ev: ParseEvent) -> Step {
    assert!(matches!(run.poll(st, true), Step::ReadEvent));
    run.on_event(st, ev)
}

fn page(run: &mut PipelineRun, st: &mut TrainerState, title: &str, body: &str) -> Step {
    assert!(matches!(feed(run, st, start("page")), Step::Continue));
    assert!(matches!(feed(run, st, start("title")), Step::Continue));
    assert!(matches!(feed(run, st, text(title)), Step::Continue));
    assert!(matches!(feed(run, st, end("title")), Step::Continue));
    assert!(matches!(feed(run, st, start("text")), Step::Continue));
    assert!(matches!(feed(run, st, ParseEvent::CData(body.to_string())), Step::Continue));
    feed(run, st, end("text"))
}

#[test]
fn failure_status_ends_the_run_with_an_error() {
    let mut st = running_state();
    let mut run = PipelineRun::new(100, None);
    assert!(matches!(run.on_response(&mut st, 404, "Not Found"), Step::Done));
    assert_eq!(run.phase(), Phase::Finished);
    assert!(!st.running);
    assert_eq!(st.error.as_deref(), Some("HTTP Error: 404 Not Found"));
    assert_eq!(st.articles_processed, 0);
}

#[test]
fn transport_failure_ends_the_run() {
    let mut st = running_state();
    let mut run = PipelineRun::new(100, None);
    assert!(matches!(run.abort(&mut st, "connection refused".to_string()), Step::Done));
    assert!(!st.running);
    assert_eq!(st.error.as_deref(), Some("connection refused"));
}

#[test]
fn an_article_is_trained_and_counted() {
    let mut st = running_state();
    let mut run = PipelineRun::new(100, None);
    assert!(matches!(run.on_response(&mut st, 200, "OK"), Step::Continue));
    match page(&mut run, &mut st, "Paris", "Paris is the [[capital city|capital]] of {{country}} France") {
        Step::Train { title, tokens } => {
            assert_eq!(title, "Paris");
            assert_eq!(tokens, vec!["PARIS", "THE", "CAPITAL", "FRANCE"]);
        },
        _ => panic!("expected a training step"),
    }
    assert_eq!(run.phase(), Phase::AwaitTrained);
    assert!(matches!(run.on_trained(&mut st), Step::Continue));
    assert_eq!(st.articles_processed, 1);
    assert_eq!(st.tokens_processed, 4);
    assert_eq!(st.last_title.as_deref(), Some("Paris"));
    assert_eq!(run.articles(), 1);
}

#[test]
fn namespaced_and_empty_pages_are_skipped() {
    let mut st = running_state();
    let mut run = PipelineRun::new(100, None);
    run.on_response(&mut st, 200, "OK");
    assert!(matches!(page(&mut run, &mut st, "Talk:Paris", "Some words here"), Step::Continue));
    assert!(matches!(page(&mut run, &mut st, "Paris", ""), Step::Continue));
    assert!(matches!(page(&mut run, &mut st, "Paris", "a b 12"), Step::Continue));
    assert_eq!(st.articles_processed, 0);
}

#[test]
fn checkpoints_follow_the_interval() {
    let mut st = running_state();
    let mut run = PipelineRun::new(2, None);
    run.on_response(&mut st, 200, "OK");
    assert!(matches!(page(&mut run, &mut st, "One", "first article"), Step::Train { .. }));
    assert!(matches!(run.on_trained(&mut st), Step::Continue));
    assert!(matches!(page(&mut run, &mut st, "Two", "second article"), Step::Train { .. }));
    assert!(matches!(run.on_trained(&mut st), Step::Checkpoint));
    assert!(matches!(run.on_checkpoint(&mut st, None), Step::Continue));
    assert_eq!(st.articles_processed, 2);
}

#[test]
fn a_failed_checkpoint_ends_the_run_without_a_last_one() {
    let mut st = running_state();
    let mut run = PipelineRun::new(1, None);
    run.on_response(&mut st, 200, "OK");
    assert!(matches!(page(&mut run, &mut st, "One", "first article"), Step::Train { .. }));
    assert!(matches!(run.on_trained(&mut st), Step::Checkpoint));
    assert!(matches!(run.on_checkpoint(&mut st, Some("disk full".to_string())), Step::Done));
    assert_eq!(run.phase(), Phase::Finished);
    assert!(!st.running);
    assert_eq!(st.error.as_deref(), Some("disk full"));
}

#[test]
fn stopping_asks_for_exactly_one_final_checkpoint() {
    let mut st = running_state();
    let mut run = PipelineRun::new(100, None);
    run.on_response(&mut st, 200, "OK");
    assert!(matches!(feed(&mut run, &mut st, start("page")), Step::Continue));
    st.request_stop();
    assert!(matches!(run.poll(&st, st.running), Step::FinalCheckpoint));
    assert_eq!(run.phase(), Phase::Finishing);
    assert!(matches!(run.on_final_checkpoint(&mut st, None), Step::Done));
    assert_eq!(run.phase(), Phase::Finished);
    assert!(!st.running);
    assert!(st.error.is_none());
}

#[test]
fn end_of_input_and_read_errors_finish_the_run() {
    let mut st = running_state();
    let mut run = PipelineRun::new(100, None);
    run.on_response(&mut st, 200, "OK");
    assert!(matches!(feed(&mut run, &mut st, ParseEvent::Eof), Step::FinalCheckpoint));
    assert!(matches!(run.on_final_checkpoint(&mut st, None), Step::Done));
    assert!(!st.running);

    let mut st = running_state();
    let mut run = PipelineRun::new(100, None);
    run.on_response(&mut st, 200, "OK");
    assert!(matches!(feed(&mut run, &mut st, ParseEvent::Failed("bad tag".to_string())), Step::FinalCheckpoint));
    assert_eq!(st.error.as_deref(), Some("XML error: bad tag"));
    assert!(matches!(run.on_final_checkpoint(&mut st, Some("disk full".to_string())), Step::Done));
    assert_eq!(st.error.as_deref(), Some("disk full"));
}

#[test]
fn the_article_cap_ends_the_run() {
    let mut st = running_state();
    let mut run = PipelineRun::new(100, Some(1));
    run.on_response(&mut st, 200, "OK");
    assert!(matches!(page(&mut run, &mut st, "One", "first article"), Step::Train { .. }));
    assert!(matches!(run.on_trained(&mut st), Step::FinalCheckpoint));

    let mut st = running_state();
    let mut run = PipelineRun::new(100, Some(0));
    run.on_response(&mut st, 200, "OK");
    assert!(matches!(feed(&mut run, &mut st, ParseEvent::Other), Step::FinalCheckpoint));
}

#[test]
fn start_is_idempotent_and_reload_clears_running() {
    let mut st = TrainerState::default();
    assert!(st.begin());
    assert!(!st.begin());
    st.error = Some("old".to_string());
    st.request_stop();
    assert!(st.begin());
    assert!(st.error.is_none());
    st.record_article("A".to_string(), 7);
    let back = st.clone().reloaded();
    assert!(!back.running);
    assert_eq!(back.articles_processed, 1);
    assert_eq!(back.tokens_processed, 7);
}
