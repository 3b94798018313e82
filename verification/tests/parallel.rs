use dragen::{Action, Agent, AgentConfig, Error, Job, Json, MapBoard, Output, PyValue};

fn run_job(job: &mut Job, sandbox_fails: bool) -> Result<Json, Error> {
    let mut step = job.agent.run("", None, &job.task);
    loop {
        match step.action {
            Action::CallModel => {
                let text = if sandbox_fails {
                    "<code>broken()</code>".to_string()
                } else {
                    format!("<finish>\"result of {}\"</finish>", job.task)
                };
                let next = job.agent.on_model_reply(text);
                step = job.agent.advance(next);
            }
            Action::Execute { .. } => {
                step = job.agent.on_executed(Err(format!("{} failed", job.task)), None);
            }
            Action::Decode { candidate } => {
                let next = job.agent.on_decoded(Ok(()));
                assert_eq!(next.action, Action::Finished);
                return Ok(candidate);
            }
            Action::Failed { error } => return Err(error),
            other => panic!("unexpected action {:?}", other),
        }
    }
}

#[test]
fn failing_task_keeps_to_its_own_slot() {
    let base = Agent::new(AgentConfig::new("test").max_iterations(3));
    let mut jobs = base.map(vec!["A".to_string(), "B".to_string()]);
    assert_eq!(jobs.len(), 2);
    let mut board: MapBoard<Json> = MapBoard::new(jobs.len());

    // B completes first.
    let b = run_job(&mut jobs[1], true);
    assert!(board.record(jobs[1].index, b));
    assert!(!board.is_complete());
    let a = run_job(&mut jobs[0], false);
    assert!(board.record(jobs[0].index, a));
    assert!(board.is_complete());

    let results = board.results().unwrap();
    assert_eq!(
        results,
        vec![Ok(Json::Str("result of A".to_string())), Err(Error::MaxIterations(3))]
    );
    for turn in jobs[0].agent.messages() {
        assert!(!turn.content.contains("B failed"));
    }
}

#[test]
fn results_come_out_in_task_order_for_every_completion_order() {
    let orders: [[usize; 3]; 6] =
        [[0, 1, 2], [0, 2, 1], [1, 0, 2], [1, 2, 0], [2, 0, 1], [2, 1, 0]];
    for order in orders {
        let mut board: MapBoard<usize> = MapBoard::new(3);
        for index in order {
            assert!(board.record(index, Ok(index * 10)));
        }
        assert_eq!(board.results(), Some(vec![Ok(0), Ok(10), Ok(20)]));
    }
}

#[test]
fn board_refuses_what_has_no_free_slot() {
    let mut board: MapBoard<u8> = MapBoard::new(2);
    assert!(!board.record(2, Ok(1)));
    assert!(board.record(1, Ok(1)));
    assert!(!board.record(1, Ok(9)));
    assert!(!board.is_complete());
    assert!(board.record(0, Err(Error::NoCodeFound)));
    assert_eq!(board.results(), Some(vec![Err(Error::NoCodeFound), Ok(1)]));

    let mut partial: MapBoard<u8> = MapBoard::new(2);
    partial.record(0, Ok(1));
    assert_eq!(partial.results(), None);
    let empty: MapBoard<u8> = MapBoard::new(0);
    assert_eq!(empty.results(), Some(Vec::new()));
}

#[test]
fn jobs_get_agents_of_their_own() {
    let mut base = Agent::new(AgentConfig::new("test").max_iterations(2).system("Be brief."))
        .from_context("plan")
        .to_context("out")
        .on_error()
        .capture_events(true);
    base.run("", None, "own task");
    base.on_model_reply("<code>x</code>".to_string());
    base.on_executed(
        Ok(Output { value: PyValue::NoValue, output: Vec::new() }),
        Some(PyValue::Int(1)),
    );
    assert!(!base.messages().is_empty());

    let jobs = base.map(vec!["one".to_string(), "two".to_string(), "three".to_string()]);
    assert_eq!(jobs.iter().map(|j| j.index).collect::<Vec<_>>(), vec![0, 1, 2]);
    assert_eq!(jobs.iter().map(|j| j.task.as_str()).collect::<Vec<_>>(), vec!["one", "two", "three"]);
    for job in &jobs {
        assert!(job.agent.messages().is_empty());
        assert_eq!(job.agent.finish_value(), None);
        assert_eq!(job.agent.iterations(), 0);
        assert_eq!(job.agent.config(), base.config());
        assert_eq!(job.agent.context_reads(), base.context_reads());
        assert_eq!(job.agent.context_write(), base.context_write());
    }
    let mut fork = base.fork();
    assert_eq!(fork.take_events(), Vec::new());
    let clone = base.clone();
    assert!(clone.messages().is_empty());
    assert_eq!(clone.finish_value(), None);
    assert_eq!(clone.config(), base.config());
    assert!(!base.take_events().is_empty());
}
