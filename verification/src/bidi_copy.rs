//! Copying in both directions between two streams, side `A` and side `B`.
//!
//! The streams themselves are polled by the caller. What is decided here is what
//! to poll next and what the two directions together come to.

use vstd::prelude::*;

verus! {

/// How far one direction has come.
#[derive(Debug, Clone, Copy, PartialEq, Eq, Structural)]
pub enum TransferState {
    /// Bytes are still being copied.
    Running,
    /// All bytes are copied, so many of them; the writing side is to be shut down.
    ShuttingDown(u64),
    /// The direction has ended after so many bytes.
    Done(u64),
}

/// A direction of the copy.
#[derive(Debug, Clone, Copy, PartialEq, Eq, Structural)]
pub enum Direction {
    AToB,
    BToA,
}

/// What a poll of a stream came to.
#[derive(Debug, Clone, Copy, PartialEq, Eq, Structural)]
pub enum Polled {
    /// Not ready yet.
    Pending,
    /// Ready: copying ended after so many bytes. A shutdown has no count; the
    /// number is not looked at.
    Ready(u64),
    /// An I/O error.
    Failed,
}

/// What the caller has to do, or what the whole poll came to.
#[derive(Debug, Clone, Copy, PartialEq, Eq, Structural)]
pub enum BidiAction {
    /// Go on copying in this direction.
    PollCopy(Direction),
    /// Shut down the stream that this direction writes to.
    PollShutdown(Direction),
    /// The poll ends: not ready yet.
    Pending,
    /// The poll ends: so many bytes went from `A` to `B` and from `B` to `A`.
    Ready(u64, u64),
    /// The poll ends with the error that was met.
    Failed,
}

/// Where a poll stands.
#[derive(Debug, Clone, Copy, PartialEq, Eq, Structural)]
pub enum Stage {
    /// No poll is under way.
    Idle,
    /// The direction from `A` to `B` is driven.
    First,
    /// The direction from `B` to `A` is driven, after the other one ended with so
    /// many bytes or was not ready.
    Second(Option<u64>),
}

/// What to poll for a direction, or `None` where it has ended.
pub open spec fn poll_for(state: TransferState, direction: Direction) -> Option<BidiAction> {
    match state {
        TransferState::Running => Some(BidiAction::PollCopy(direction)),
        TransferState::ShuttingDown(_) => Some(BidiAction::PollShutdown(direction)),
        TransferState::Done(_) => None,
    }
}

/// The state of a direction after what was polled for it is ready.
pub open spec fn moved_on(state: TransferState, count: u64) -> TransferState {
    match state {
        TransferState::Running => TransferState::ShuttingDown(count),
        TransferState::ShuttingDown(total) => TransferState::Done(total),
        TransferState::Done(total) => TransferState::Done(total),
    }
}

/// How many polls of a direction can still be ready.
pub open spec fn polls_left(state: TransferState) -> nat {
    match state {
        TransferState::Running => 2,
        TransferState::ShuttingDown(_) => 1,
        TransferState::Done(_) => 0,
    }
}

/// What two directions come to together, each either ended with so many bytes or
/// not ready. Either both have to end, or, where `brutal` is set, the first one
/// that ends takes the other with it, whose bytes then do not count.
pub open spec fn both(brutal: bool, a_to_b: Option<u64>, b_to_a: Option<u64>) -> BidiAction {
    match (a_to_b, b_to_a) {
        (Some(x), Some(y)) => BidiAction::Ready(x, y),
        (Some(x), None) if brutal => BidiAction::Ready(x, 0),
        (None, Some(y)) if brutal => BidiAction::Ready(0, y),
        _ => BidiAction::Pending,
    }
}

/// Moves a direction on after what was polled for it is ready.
pub fn transfer(state: TransferState, count: u64) -> (next: TransferState)
    ensures
        next == moved_on(state, count),
{
    match state {
        TransferState::Running => TransferState::ShuttingDown(count),
        TransferState::ShuttingDown(total) => TransferState::Done(total),
        TransferState::Done(total) => TransferState::Done(total),
    }
}

/// Puts together what the two directions came to.
fn join(brutal: bool, a_to_b: Option<u64>, b_to_a: Option<u64>) -> (action: BidiAction)
    ensures
        action == both(brutal, a_to_b, b_to_a),
{
    match (a_to_b, b_to_a) {
        (Some(x), Some(y)) => BidiAction::Ready(x, y),
        (Some(x), None) => if brutal {
            BidiAction::Ready(x, 0)
        } else {
            BidiAction::Pending
        },
        (None, Some(y)) => if brutal {
            BidiAction::Ready(0, y)
        } else {
            BidiAction::Pending
        },
        (None, None) => BidiAction::Pending,
    }
}

/// A copy in both directions.
#[derive(Debug, Clone, Copy, PartialEq, Eq, Structural)]
pub struct BidiCopy {
    pub a_to_b: TransferState,
    pub b_to_a: TransferState,
    pub brutal: bool,
    pub stage: Stage,
}

impl BidiCopy {
    /// A copy that has not begun. With `brutal`, the end of either direction ends
    /// the copy.
    pub fn new(brutal: bool) -> (copy: Self)
        ensures
            copy == (BidiCopy {
                a_to_b: TransferState::Running,
                b_to_a: TransferState::Running,
                brutal,
                stage: Stage::Idle,
            }),
    {
        BidiCopy {
            a_to_b: TransferState::Running,
            b_to_a: TransferState::Running,
            brutal,
            stage: Stage::Idle,
        }
    }

    /// The copy with another stage.
    pub open spec fn at(self, stage: Stage) -> Self {
        BidiCopy { stage, ..self }
    }

    /// What comes next where the direction from `A` to `B` came to `first` in this
    /// poll, and how the copy then stands.
    pub open spec fn second(self, first: Option<u64>) -> (Self, BidiAction) {
        match self.b_to_a {
            TransferState::Done(total) => (
                self.at(Stage::Idle),
                both(self.brutal, first, Some(total)),
            ),
            _ => (self.at(Stage::Second(first)), poll_for(self.b_to_a, Direction::BToA)->0),
        }
    }

    /// What comes next while the direction from `A` to `B` is driven, and how the
    /// copy then stands.
    pub open spec fn first(self) -> (Self, BidiAction) {
        match self.a_to_b {
            TransferState::Done(total) => self.second(Some(total)),
            _ => (self.at(Stage::First), poll_for(self.a_to_b, Direction::AToB)->0),
        }
    }

    /// What follows a reply to the last action, and how the copy then stands.
    pub open spec fn after(self, reply: Polled) -> (Self, BidiAction) {
        match self.stage {
            Stage::Idle => (self, BidiAction::Pending),
            Stage::First => match reply {
                Polled::Ready(count) => (BidiCopy {
                    a_to_b: moved_on(self.a_to_b, count),
                    ..self
                }).first(),
                Polled::Pending => self.second(None),
                Polled::Failed => (self.at(Stage::Idle), BidiAction::Failed),
            },
            Stage::Second(first) => match reply {
                Polled::Ready(count) => (BidiCopy {
                    b_to_a: moved_on(self.b_to_a, count),
                    ..self
                }).second(first),
                Polled::Pending => (self.at(Stage::Idle), both(self.brutal, first, None)),
                Polled::Failed => (self.at(Stage::Idle), BidiAction::Failed),
            },
        }
    }

    /// Goes on to the direction from `B` to `A`.
    fn enter_second(&mut self, first: Option<u64>) -> (action: BidiAction)
        ensures
            (*final(self), action) == old(self).second(first),
    {
        match self.b_to_a {
            TransferState::Running => {
                self.stage = Stage::Second(first);
                BidiAction::PollCopy(Direction::BToA)
            },
            TransferState::ShuttingDown(_) => {
                self.stage = Stage::Second(first);
                BidiAction::PollShutdown(Direction::BToA)
            },
            TransferState::Done(total) => {
                self.stage = Stage::Idle;
                join(self.brutal, first, Some(total))
            },
        }
    }

    /// Begins a poll. The caller does what it is told and hands what came of it
    /// to [`BidiCopy::resume`], until the poll ends.
    pub fn poll(&mut self) -> (action: BidiAction)
        ensures
            (*final(self), action) == old(self).first(),
    {
        match self.a_to_b {
            TransferState::Running => {
                self.stage = Stage::First;
                BidiAction::PollCopy(Direction::AToB)
            },
            TransferState::ShuttingDown(_) => {
                self.stage = Stage::First;
                BidiAction::PollShutdown(Direction::AToB)
            },
            TransferState::Done(total) => self.enter_second(Some(total)),
        }
    }

    /// Goes on with a poll after the last action came to `reply`.
    pub fn resume(&mut self, reply: Polled) -> (action: BidiAction)
        requires
            old(self).stage != Stage::Idle,
        ensures
            (*final(self), action) == old(self).after(reply),
    {
        match self.stage {
            Stage::Idle => BidiAction::Pending,
            Stage::First => match reply {
                Polled::Ready(count) => {
                    self.a_to_b = transfer(self.a_to_b, count);
                    self.poll()
                },
                Polled::Pending => self.enter_second(None),
                Polled::Failed => {
                    self.stage = Stage::Idle;
                    BidiAction::Failed
                },
            },
            Stage::Second(first) => match reply {
                Polled::Ready(count) => {
                    self.b_to_a = transfer(self.b_to_a, count);
                    self.enter_second(first)
                },
                Polled::Pending => {
                    self.stage = Stage::Idle;
                    join(self.brutal, first, None)
                },
                Polled::Failed => {
                    self.stage = Stage::Idle;
                    BidiAction::Failed
                },
            },
        }
    }
}

// ---------------------------------------------------------------------------
// Laws
// ---------------------------------------------------------------------------

/// What an action tells of the copy that gave it: a direction is copied only
/// while it runs and shut down only once it has been copied, and without `brutal`
/// the poll is ready only with the totals of two directions that have both ended.
pub open spec fn sound(copy: BidiCopy, action: BidiAction) -> bool {
    match action {
        BidiAction::PollCopy(Direction::AToB) => copy.a_to_b is Running && copy.stage is First,
        BidiAction::PollCopy(Direction::BToA) => copy.b_to_a is Running && copy.stage is Second,
        BidiAction::PollShutdown(Direction::AToB) => copy.a_to_b is ShuttingDown
            && copy.stage is First,
        BidiAction::PollShutdown(Direction::BToA) => copy.b_to_a is ShuttingDown
            && copy.stage is Second,
        BidiAction::Ready(x, y) => {
            &&& copy.stage is Idle
            &&& !copy.brutal ==> copy.a_to_b == TransferState::Done(x) && copy.b_to_a
                == TransferState::Done(y)
            &&& copy.a_to_b == TransferState::Done(x) || copy.b_to_a == TransferState::Done(y)
        },
        BidiAction::Pending => copy.stage is Idle && !(copy.a_to_b is Done && copy.b_to_a is Done),
        BidiAction::Failed => copy.stage is Idle,
    }
}

/// Whether a copy stands where a caller of `poll` and `resume` can find it: what
/// it remembers of the first direction is how that direction stands.
pub open spec fn consistent(copy: BidiCopy) -> bool {
    match copy.stage {
        Stage::Idle => true,
        Stage::First => !(copy.a_to_b is Done),
        Stage::Second(Some(total)) => copy.a_to_b == TransferState::Done(total) && !(
        copy.b_to_a is Done),
        Stage::Second(None) => !(copy.a_to_b is Done) && !(copy.b_to_a is Done),
    }
}

/// A poll begins soundly.
pub proof fn poll_is_sound(copy: BidiCopy)
    ensures
        consistent(copy.first().0),
        sound(copy.first().0, copy.first().1),
{
}

/// A poll goes on soundly, whatever the streams reply.
pub proof fn resume_is_sound(copy: BidiCopy, reply: Polled)
    requires
        consistent(copy),
        copy.stage != Stage::Idle,
    ensures
        consistent(copy.after(reply).0),
        sound(copy.after(reply).0, copy.after(reply).1),
{
}

/// Every reply brings the poll nearer to its end: either the poll ends, or it
/// goes over to the second direction, or fewer polls of the directions are left.
/// A direction never goes back, and a total, once known, stays.
pub proof fn resume_makes_progress(copy: BidiCopy, reply: Polled)
    requires
        consistent(copy),
        copy.stage != Stage::Idle,
    ensures
        ({
            let next = copy.after(reply).0;
            &&& next.stage is Idle || (copy.stage is First && next.stage is Second) || polls_left(
                next.a_to_b,
            ) + polls_left(next.b_to_a) < polls_left(copy.a_to_b) + polls_left(copy.b_to_a)
            &&& polls_left(next.a_to_b) <= polls_left(copy.a_to_b)
            &&& polls_left(next.b_to_a) <= polls_left(copy.b_to_a)
            &&& copy.a_to_b matches TransferState::ShuttingDown(total) ==> next.a_to_b == copy.a_to_b
                || next.a_to_b == TransferState::Done(total)
            &&& copy.b_to_a matches TransferState::ShuttingDown(total) ==> next.b_to_a == copy.b_to_a
                || next.b_to_a == TransferState::Done(total)
            &&& copy.a_to_b is Done ==> next.a_to_b == copy.a_to_b
            &&& copy.b_to_a is Done ==> next.b_to_a == copy.b_to_a
        }),
{
}

/// An error from `A` to `B` ends the poll before the other direction is touched.
pub proof fn first_error_leaves_second_direction(copy: BidiCopy)
    requires
        copy.stage is First,
    ensures
        copy.after(Polled::Failed) == (copy.at(Stage::Idle), BidiAction::Failed),
{
}

/// An error ends the poll with that error, in whichever direction it is met and
/// however the other direction stands; neither direction is moved by it.
pub proof fn any_error_ends_the_poll(copy: BidiCopy)
    requires
        copy.stage != Stage::Idle,
    ensures
        copy.after(Polled::Failed).1 == BidiAction::Failed,
        copy.after(Polled::Failed).0.stage == Stage::Idle,
        copy.after(Polled::Failed).0.a_to_b == copy.a_to_b,
        copy.after(Polled::Failed).0.b_to_a == copy.b_to_a,
        copy.after(Polled::Failed).0.brutal == copy.brutal,
{
}

/// A poll begins with the direction from `A` to `B`, or with the other one where that
/// has ended, and moves neither: a direction that runs is copied, and one that is
/// copied is shut down. Where both have ended it is ready with both totals at once.
pub proof fn poll_begins_with_the_first_direction_left(copy: BidiCopy)
    ensures
        ({
            let (next, action) = copy.first();
            &&& next.a_to_b == copy.a_to_b
            &&& next.b_to_a == copy.b_to_a
            &&& next.brutal == copy.brutal
            &&& copy.a_to_b is Running ==> action == BidiAction::PollCopy(Direction::AToB)
            &&& copy.a_to_b is ShuttingDown ==> action == BidiAction::PollShutdown(
                Direction::AToB,
            )
            &&& copy.a_to_b is Done && copy.b_to_a is Running ==> action == BidiAction::PollCopy(
                Direction::BToA,
            )
            &&& copy.a_to_b is Done && copy.b_to_a is ShuttingDown ==> action
                == BidiAction::PollShutdown(Direction::BToA)
            &&& copy.a_to_b matches TransferState::Done(x) ==> (
            copy.b_to_a matches TransferState::Done(y) ==> action == BidiAction::Ready(x, y))
        }),
{
}

/// A reply moves the direction that was polled and no other, and only where it is
/// ready: a copy that has ended is to be shut down with its count, and a shutdown that
/// has ended leaves the direction ended with the count of its copy.
pub proof fn reply_moves_the_polled_direction_alone(copy: BidiCopy, reply: Polled)
    requires
        consistent(copy),
        copy.stage != Stage::Idle,
    ensures
        ({
            let next = copy.after(reply).0;
            let (before, then) = if copy.stage is First {
                (copy.a_to_b, next.a_to_b)
            } else {
                (copy.b_to_a, next.b_to_a)
            };
            &&& next.brutal == copy.brutal
            &&& copy.stage is First ==> next.b_to_a == copy.b_to_a
            &&& copy.stage is Second ==> next.a_to_b == copy.a_to_b
            &&& !(reply is Ready) ==> then == before
            &&& reply matches Polled::Ready(count) ==> (before is Running ==> then
                == TransferState::ShuttingDown(count))
            &&& before matches TransferState::ShuttingDown(total) ==> (reply is Ready ==> then
                == TransferState::Done(total))
        }),
{
}

/// What a reply other than an error leads to. A direction whose copy has just ended is
/// shut down at once. The first direction, when it has ended or is not ready, gives way
/// to the second one, which is copied or shut down. Otherwise the poll ends, with what
/// the two directions have come to: it is ready with both totals where both have ended;
/// where one has ended it is ready only if that is to end the copy, and then the other
/// one counts nothing.
pub proof fn reply_leads_on_or_ends_the_poll(copy: BidiCopy, reply: Polled)
    requires
        consistent(copy),
        copy.stage != Stage::Idle,
        reply != Polled::Failed,
    ensures
        ({
            let (next, action) = copy.after(reply);
            let in_first = copy.stage is First;
            let now = if in_first {
                next.a_to_b
            } else {
                next.b_to_a
            };
            let gives_way = in_first && (reply is Pending || next.a_to_b is Done);
            let ends = if in_first {
                gives_way && next.b_to_a is Done
            } else {
                reply is Pending || next.b_to_a is Done
            };
            &&& reply is Ready && now is ShuttingDown && in_first ==> action
                == BidiAction::PollShutdown(Direction::AToB)
            &&& reply is Ready && now is ShuttingDown && !in_first ==> action
                == BidiAction::PollShutdown(Direction::BToA)
            &&& gives_way && next.b_to_a is Running ==> action == BidiAction::PollCopy(
                Direction::BToA,
            )
            &&& gives_way && next.b_to_a is ShuttingDown ==> action == BidiAction::PollShutdown(
                Direction::BToA,
            )
            &&& ends ==> next.stage == Stage::Idle && (match (next.a_to_b, next.b_to_a) {
                (TransferState::Done(x), TransferState::Done(y)) => action == BidiAction::Ready(
                    x,
                    y,
                ),
                (TransferState::Done(x), _) => action == if next.brutal {
                    BidiAction::Ready(x, 0)
                } else {
                    BidiAction::Pending
                },
                (_, TransferState::Done(y)) => action == if next.brutal {
                    BidiAction::Ready(0, y)
                } else {
                    BidiAction::Pending
                },
                _ => action == BidiAction::Pending,
            })
        }),
{
}

} // verus!
