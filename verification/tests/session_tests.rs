use http_tunnel::session::{CopyEnd, CopyState, Direction, SessionAction, SessionState};

fn eof(direction: Direction, bytes: u64) -> CopyEnd {
    CopyEnd::Eof { direction, bytes }
}

#[test]
fn session_starts_with_both_directions_copying() {
    let state = SessionState::start();
    assert_eq!(
        state,
        SessionState::Relaying {
            forward: CopyState::Copying,
            backward: CopyState::Copying
        }
    );
    assert_eq!(state.result(), None);
}

#[test]
fn clean_end_forward_first() {
    let state = SessionState::start();
    let (state, action) = state.on_copy_end(eof(Direction::Forward, 120));
    assert_eq!(action, SessionAction::HalfClose(Direction::Forward));
    assert_eq!(
        state,
        SessionState::Relaying {
            forward: CopyState::Finished(120),
            backward: CopyState::Copying
        }
    );
    assert_eq!(state.result(), None);
    let (state, action) = state.on_copy_end(eof(Direction::Backward, 4096));
    assert_eq!(action, SessionAction::CloseBoth);
    assert_eq!(
        state,
        SessionState::Completed {
            uploaded: 120,
            downloaded: 4096
        }
    );
    assert_eq!(state.result(), Some(Ok((120, 4096))));
}

#[test]
fn clean_end_backward_first() {
    let state = SessionState::start();
    let (state, action) = state.on_copy_end(eof(Direction::Backward, 7));
    assert_eq!(action, SessionAction::HalfClose(Direction::Backward));
    assert_eq!(state.result(), None);
    let (state, action) = state.on_copy_end(eof(Direction::Forward, 0));
    assert_eq!(action, SessionAction::CloseBoth);
    assert_eq!(state.result(), Some(Ok((0, 7))));
}

#[test]
fn failure_ends_a_fresh_session() {
    let (state, action) = SessionState::start().on_copy_end(CopyEnd::Failed {
        direction: Direction::Forward,
    });
    assert_eq!(action, SessionAction::CloseBoth);
    assert_eq!(state, SessionState::Failed(Direction::Forward));
    assert_eq!(state.result(), Some(Err(Direction::Forward)));
}

#[test]
fn backward_failure_after_forward_finished() {
    let (state, _) = SessionState::start().on_copy_end(eof(Direction::Forward, 55));
    let (state, action) = state.on_copy_end(CopyEnd::Failed {
        direction: Direction::Backward,
    });
    assert_eq!(action, SessionAction::CloseBoth);
    assert_eq!(state, SessionState::Failed(Direction::Backward));
    assert_eq!(state.result(), Some(Err(Direction::Backward)));
}

#[test]
fn forward_failure_after_backward_finished() {
    let (state, _) = SessionState::start().on_copy_end(eof(Direction::Backward, 1));
    let (state, action) = state.on_copy_end(CopyEnd::Failed {
        direction: Direction::Forward,
    });
    assert_eq!(action, SessionAction::CloseBoth);
    assert_eq!(state.result(), Some(Err(Direction::Forward)));
}

#[test]
fn byte_counts_keep_their_direction() {
    let (state, _) = SessionState::start().on_copy_end(eof(Direction::Forward, u64::MAX));
    let (state, _) = state.on_copy_end(eof(Direction::Backward, 1));
    assert_eq!(state.result(), Some(Ok((u64::MAX, 1))));
}
