use vstd::prelude::*;

verus! {

/// The projections that clients receive, each on its own path.
#[derive(Clone, Copy, Debug, PartialEq, Eq, Structural)]
pub enum Channel {
    Players,
    GameStatus,
    RoundStatus,
    Picks,
}

/// The state changes after which clients are notified.
#[derive(Clone, Copy, Debug, PartialEq, Eq, Structural)]
pub enum Transition {
    RoundCreated,
    RoundLocked,
    PicksSaved,
    RoundScored,
    PlayerBound,
}

pub open spec fn channel_path(c: Channel) -> Seq<char> {
    match c {
        Channel::Players => "/players"@,
        Channel::GameStatus => "/game-status"@,
        Channel::RoundStatus => "/round-status"@,
        Channel::Picks => "/picks"@,
    }
}

/// The projections recomputed and broadcast after `t`, in the order they are sent.
pub open spec fn channels_for(t: Transition) -> Seq<Channel> {
    match t {
        Transition::RoundCreated => seq![Channel::GameStatus, Channel::RoundStatus],
        Transition::RoundLocked => seq![Channel::GameStatus, Channel::RoundStatus],
        Transition::RoundScored => seq![Channel::GameStatus, Channel::RoundStatus],
        Transition::PicksSaved => seq![Channel::Picks],
        Transition::PlayerBound => seq![Channel::Players],
    }
}

impl Channel {
    /// The path that tags this projection's frames.
    pub fn path(&self) -> (r: &'static str)
        ensures
            r@ == channel_path(*self),
    {
        match self {
            Channel::Players => "/players",
            Channel::GameStatus => "/game-status",
            Channel::RoundStatus => "/round-status",
            Channel::Picks => "/picks",
        }
    }
}

/// The projections to recompute and broadcast after `t`.
pub fn channels_after(t: Transition) -> (r: Vec<Channel>)
    ensures
        r@ == channels_for(t),
{
    let mut r: Vec<Channel> = Vec::new();
    match t {
        Transition::RoundCreated | Transition::RoundLocked | Transition::RoundScored => {
            r.push(Channel::GameStatus);
            r.push(Channel::RoundStatus);
        },
        Transition::PicksSaved => {
            r.push(Channel::Picks);
        },
        Transition::PlayerBound => {
            r.push(Channel::Players);
        },
    }
    assert(r@ =~= channels_for(t));
    r
}

} // verus!
