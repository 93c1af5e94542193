use shader_host::session::{Event, Frame, RunState, Session};

fn fresh() -> Session {
    Session::new(1, 2, 1024, 768)
}

#[test]
fn three_quiet_iterations_draw_ten_twenty_thirty() {
    // Scenario: no events at all for three iterations.
    let mut s = fresh();
    let batches: Vec<Vec<Event>> = vec![vec![], vec![], vec![]];
    let frames = s.run_loop(&batches);
    assert_eq!(
        frames,
        vec![
            Frame { time: 10, width: 1024, height: 768 },
            Frame { time: 20, width: 1024, height: 768 },
            Frame { time: 30, width: 1024, height: 768 },
        ]
    );
    assert_eq!(s.run, RunState::Running);
    assert_eq!(s.clock.time, 30);
}

#[test]
fn close_request_on_second_iteration_suppresses_its_draw() {
    // Scenario: the window close request arrives on iteration 2; that
    // iteration must not draw, and the loop returns stopped.
    let mut s = fresh();
    let batches: Vec<Vec<Event>> = vec![vec![], vec![Event::CloseRequested], vec![], vec![]];
    let frames = s.run_loop(&batches);
    assert_eq!(frames, vec![Frame { time: 10, width: 1024, height: 768 }]);
    assert_eq!(s.run, RunState::Stopped);
    assert_eq!(s.clock.time, 10);
}

#[test]
fn escape_stops_like_a_close_request() {
    let mut s = fresh();
    let batches: Vec<Vec<Event>> = vec![vec![Event::EscapePressed], vec![]];
    let frames = s.run_loop(&batches);
    assert!(frames.is_empty());
    assert_eq!(s.run, RunState::Stopped);
}

#[test]
fn resize_rebinds_target_before_the_next_draw() {
    // The first draw after a resize must already use the new dimensions, and
    // the pipeline and vertex buffer identities must be untouched.
    let mut s = fresh();
    let first = s.run_iteration(&vec![]);
    assert_eq!(first, Some(Frame { time: 10, width: 1024, height: 768 }));
    let second = s.run_iteration(&vec![Event::Resized { width: 640, height: 480 }]);
    assert_eq!(second, Some(Frame { time: 20, width: 640, height: 480 }));
    assert_eq!(s.pipeline.pipeline_id, 1);
    assert_eq!(s.pipeline.vertex_buffer_id, 2);
    let third = s.run_iteration(&vec![]);
    assert_eq!(third, Some(Frame { time: 30, width: 640, height: 480 }));
}

#[test]
fn last_resize_of_a_batch_wins() {
    let mut s = fresh();
    let f = s.run_iteration(&vec![
        Event::Resized { width: 300, height: 200 },
        Event::Resized { width: 800, height: 600 },
    ]);
    assert_eq!(f, Some(Frame { time: 10, width: 800, height: 600 }));
}

#[test]
fn other_events_are_ignored() {
    let mut s = fresh();
    let before = s;
    s.apply_event(Event::Other);
    assert_eq!(s, before);
}

#[test]
fn stopped_session_never_draws_again() {
    let mut s = fresh();
    s.apply_event(Event::CloseRequested);
    assert_eq!(s.step(), None);
    let frames = s.run_loop(&vec![vec![], vec![]]);
    assert!(frames.is_empty());
    assert_eq!(s.run, RunState::Stopped);
    assert_eq!(s.clock.time, 0);
}

#[test]
fn no_event_restarts_a_stopped_session() {
    let mut s = fresh();
    s.apply_event(Event::EscapePressed);
    s.apply_events(&vec![
        Event::Other,
        Event::Resized { width: 10, height: 10 },
        Event::CloseRequested,
    ]);
    assert_eq!(s.run, RunState::Stopped);
}

#[test]
fn events_are_drained_before_the_draw_decision() {
    // A stop delivered in the same batch as a resize still suppresses the
    // draw, whatever its position in the batch.
    let mut s = fresh();
    let f = s.run_iteration(&vec![
        Event::Resized { width: 640, height: 480 },
        Event::EscapePressed,
    ]);
    assert_eq!(f, None);
    assert_eq!(s.run, RunState::Stopped);
    // The resize was still applied to the bindings.
    assert_eq!(s.pipeline.target.width, 640);
    assert_eq!(s.pipeline.target.height, 480);
}
