use bytehub::bidi_copy::{
    transfer, BidiAction, BidiCopy, Direction, Polled, Stage, TransferState,
};

#[test]
fn direction_moves_on() {
    assert_eq!(transfer(TransferState::Running, 5), TransferState::ShuttingDown(5));
    assert_eq!(transfer(TransferState::ShuttingDown(5), 9), TransferState::Done(5));
    assert_eq!(transfer(TransferState::Done(5), 9), TransferState::Done(5));
}

#[test]
fn both_directions_in_one_poll() {
    let mut copy = BidiCopy::new(false);
    assert_eq!(copy.poll(), BidiAction::PollCopy(Direction::AToB));
    assert_eq!(copy.resume(Polled::Ready(7)), BidiAction::PollShutdown(Direction::AToB));
    assert_eq!(copy.resume(Polled::Ready(0)), BidiAction::PollCopy(Direction::BToA));
    assert_eq!(copy.resume(Polled::Ready(3)), BidiAction::PollShutdown(Direction::BToA));
    assert_eq!(copy.resume(Polled::Ready(0)), BidiAction::Ready(7, 3));
    assert_eq!(copy.stage, Stage::Idle);
    // A further poll comes to the same.
    assert_eq!(copy.poll(), BidiAction::Ready(7, 3));
}

#[test]
fn poll_goes_on_where_it_stopped() {
    let mut copy = BidiCopy::new(false);
    copy.poll();
    assert_eq!(copy.resume(Polled::Pending), BidiAction::PollCopy(Direction::BToA));
    assert_eq!(copy.resume(Polled::Ready(4)), BidiAction::PollShutdown(Direction::BToA));
    assert_eq!(copy.resume(Polled::Pending), BidiAction::Pending);

    assert_eq!(copy.poll(), BidiAction::PollCopy(Direction::AToB));
    assert_eq!(copy.resume(Polled::Ready(6)), BidiAction::PollShutdown(Direction::AToB));
    assert_eq!(copy.resume(Polled::Pending), BidiAction::PollShutdown(Direction::BToA));
    assert_eq!(copy.resume(Polled::Ready(0)), BidiAction::Pending);
    assert_eq!(copy.b_to_a, TransferState::Done(4));

    assert_eq!(copy.poll(), BidiAction::PollShutdown(Direction::AToB));
    assert_eq!(copy.resume(Polled::Ready(0)), BidiAction::Ready(6, 4));
}

#[test]
fn brutal_ends_with_the_first_direction() {
    let mut copy = BidiCopy::new(true);
    copy.poll();
    copy.resume(Polled::Ready(7));
    assert_eq!(copy.resume(Polled::Ready(0)), BidiAction::PollCopy(Direction::BToA));
    assert_eq!(copy.resume(Polled::Pending), BidiAction::Ready(7, 0));

    let mut copy = BidiCopy::new(true);
    copy.poll();
    copy.resume(Polled::Pending);
    copy.resume(Polled::Ready(5));
    assert_eq!(copy.resume(Polled::Ready(0)), BidiAction::Ready(0, 5));

    let mut copy = BidiCopy::new(true);
    copy.poll();
    copy.resume(Polled::Pending);
    assert_eq!(copy.resume(Polled::Pending), BidiAction::Pending);
}

#[test]
fn error_ends_the_poll() {
    let mut copy = BidiCopy::new(false);
    copy.poll();
    assert_eq!(copy.resume(Polled::Failed), BidiAction::Failed);
    assert_eq!(copy, BidiCopy::new(false));

    let mut copy = BidiCopy::new(true);
    copy.poll();
    copy.resume(Polled::Ready(1));
    copy.resume(Polled::Ready(0));
    assert_eq!(copy.resume(Polled::Failed), BidiAction::Failed);
    assert_eq!(copy.a_to_b, TransferState::Done(1));
}
