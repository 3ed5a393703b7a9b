use zipzap_core::lifecycle::{
    completion_result, finished_task_result, resolve_binary, summarize_kills, ExitCheck, KillOutcome,
    Orchestrator, ResumePlan, SuspendPrimitive, TaskError, TaskInfo, WaitStep,
};
use zipzap_core::types::CompressionSettings;

fn settings() -> CompressionSettings {
    CompressionSettings {
        format: "mp4".to_string(),
        codec: "H.264".to_string(),
        resolution: "original".to_string(),
        custom_resolution: None,
        quality_type: "crf".to_string(),
        crf_value: Some(23),
        bitrate: None,
        qv_value: None,
        time_range: None,
        hardware_acceleration: None,
        bit_depth: None,
    }
}

fn info(output: &str) -> TaskInfo {
    TaskInfo {
        input_path: "/videos/in.mov".to_string(),
        output_path: output.to_string(),
        total_duration: 10_000_000,
        settings: settings(),
    }
}

fn id(s: &str) -> String {
    s.to_string()
}

#[test]
fn delete_twice_is_a_no_op_the_second_time() {
    let mut o: Orchestrator<u32> = Orchestrator::new();
    o.register(id("t1"), 41, info("/out/a.mp4"));
    assert_eq!(o.delete(&id("t1")), Some(41));
    assert_eq!(o.delete(&id("t1")), None);
    assert!(!o.is_running(&id("t1")));
    assert!(o.task_info(&id("t1")).is_none());
    assert_eq!(o.delete(&id("never-seen")), None);
}

#[test]
fn pause_and_resume_of_unknown_task_report_not_found() {
    let o: Orchestrator<u32> = Orchestrator::new();
    match o.plan_pause(&id("ghost"), SuspendPrimitive::Signal) {
        Err(TaskError::TaskNotFound(t)) => assert_eq!(t, "ghost"),
        _ => panic!("expected TaskNotFound"),
    }
    match o.plan_resume(&id("ghost"), SuspendPrimitive::Signal) {
        Err(e) => {
            assert!(matches!(e, TaskError::TaskNotFound(_)));
            assert_eq!(e.message(), "Task ghost not found");
        }
        Ok(_) => panic!("expected TaskNotFound"),
    }
}

#[test]
fn pause_without_a_suspend_primitive_is_unsupported() {
    let mut o: Orchestrator<u32> = Orchestrator::new();
    o.register(id("t1"), 7, info("/out/a.mp4"));
    assert!(matches!(o.plan_pause(&id("t1"), SuspendPrimitive::Unsupported), Err(TaskError::PlatformUnsupported)));
    assert!(matches!(o.plan_pause(&id("t1"), SuspendPrimitive::ThreadSuspend), Ok(&7)));
    assert!(matches!(o.plan_resume(&id("t1"), SuspendPrimitive::Signal), Ok(ResumePlan::Continue(&7))));
}

#[test]
fn terminate_all_with_one_failed_kill() {
    let mut o: Orchestrator<u32> = Orchestrator::new();
    o.register(id("a"), 1, info("/out/a.mp4"));
    o.register(id("b"), 2, info("/out/b.mp4"));
    o.register(id("c"), 3, info("/out/c.mp4"));
    let shutdown = o.terminate_all();
    assert_eq!(shutdown.processes.len(), 3);
    let mut cancelled = shutdown.cancelled.clone();
    cancelled.sort();
    assert_eq!(cancelled, vec!["a".to_string(), "b".to_string(), "c".to_string()]);
    assert!(!o.is_running(&id("a")) && !o.is_running(&id("b")) && !o.is_running(&id("c")));
    assert!(o.task_info(&id("b")).is_none());
    let outcomes: Vec<KillOutcome> = shutdown
        .processes
        .iter()
        .map(|(t, pid)| KillOutcome {
            task_id: t.clone(),
            error: if *pid == 2 { Some("No such process".to_string()) } else { None },
        })
        .collect();
    let summary = summarize_kills(&outcomes);
    assert_eq!(summary.killed, 2);
    assert_eq!(summary.failed, vec![("b".to_string(), "No such process".to_string())]);
}

#[test]
fn delete_before_progress_interrupts_the_waiter() {
    let mut o: Orchestrator<u32> = Orchestrator::new();
    o.register(id("t1"), 99, info("/out/t1.mp4"));
    assert!(matches!(o.observe(&id("t1"), Some(ExitCheck::Running)), WaitStep::Pending));
    assert_eq!(o.delete(&id("t1")), Some(99));
    assert!(o.task_info(&id("t1")).is_none());
    assert!(matches!(o.observe(&id("t1"), None), WaitStep::Interrupted));
    assert!(matches!(o.observe(&id("t1"), Some(ExitCheck::Running)), WaitStep::Interrupted));
    assert_eq!(TaskError::ProcessInterrupted.message(), "Process was interrupted");
}

#[test]
fn exited_process_leaves_registry_but_not_store() {
    let mut o: Orchestrator<u32> = Orchestrator::new();
    o.register(id("t1"), 5, info("/out/t1.mp4"));
    let step = o.observe(&id("t1"), Some(ExitCheck::Exited { success: true, description: "exit status: 0".to_string() }));
    assert!(matches!(step, WaitStep::Finished { success: true, .. }));
    assert!(!o.is_running(&id("t1")));
    assert!(o.task_info(&id("t1")).is_some());
}

#[test]
fn resume_of_finished_task_synthesizes_success() {
    let mut o: Orchestrator<u32> = Orchestrator::new();
    o.register(id("ghost"), 8, info("/out/ghost.mp4"));
    let step = o.observe(&id("ghost"), Some(ExitCheck::Exited { success: true, description: "exit status: 0".to_string() }));
    assert!(matches!(step, WaitStep::Finished { .. }));
    match o.plan_resume(&id("ghost"), SuspendPrimitive::Signal) {
        Ok(ResumePlan::Finished(t)) => {
            let r = finished_task_result(t, 9_000, Some(4_096), None);
            assert!(r.success);
            assert_eq!(r.output_path.as_deref(), Some("/out/ghost.mp4"));
            assert_eq!(r.compressed_size, Some(4_096));
            assert_eq!(r.original_size, 9_000);
            assert!(r.error.is_none());
        }
        _ => panic!("expected a finished plan"),
    }
}

#[test]
fn failed_exit_is_a_result_not_an_error() {
    let ok = completion_result("/out/a.mp4".to_string(), 10, true, &"exit status: 0".to_string(), Some(5), None);
    assert!(ok.success);
    assert_eq!(ok.output_path.as_deref(), Some("/out/a.mp4"));
    assert_eq!(ok.compressed_size, Some(5));
    let bad = completion_result("/out/a.mp4".to_string(), 10, false, &"exit status: 1".to_string(), Some(5), None);
    assert!(!bad.success);
    assert!(bad.output_path.is_none());
    assert!(bad.compressed_size.is_none());
    assert_eq!(bad.error.as_deref(), Some("FFmpeg process failed with exit code: exit status: 1"));
}

#[test]
fn missing_binary_lists_every_candidate() {
    let tried = vec!["/app/bin/ffmpeg".to_string(), "/exe/ffmpeg".to_string()];
    match resolve_binary(&"FFmpeg".to_string(), tried.clone(), &vec![false, false]) {
        Err(e) => assert_eq!(e.message(), "FFmpeg binary not found. Tried: /app/bin/ffmpeg | /exe/ffmpeg"),
        Ok(_) => panic!("expected BinaryNotFound"),
    }
    let found = resolve_binary(&"FFmpeg".to_string(), tried, &vec![false, true]);
    assert!(matches!(found, Ok(p) if p == "/exe/ffmpeg"));
}

#[test]
fn register_replaces_and_hands_back_previous_process() {
    let mut o: Orchestrator<u32> = Orchestrator::new();
    assert_eq!(o.register(id("t1"), 1, info("/out/a.mp4")), None);
    assert_eq!(o.register(id("t1"), 2, info("/out/b.mp4")), Some(1));
    assert_eq!(o.task_info(&id("t1")).unwrap().output_path, "/out/b.mp4");
    assert_eq!(o.delete(&id("t1")), Some(2));
}
