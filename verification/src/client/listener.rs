use vstd::prelude::*;

use crate::protocol::command::ServerCommand;
use crate::protocol::message::StompMessage;

verus! {

/// The client's listener for frames from the broker: when it last heard from the broker,
/// how long the broker may stay silent, and whether a connection attempt still awaits the
/// broker's first frame.
#[derive(Debug)]
pub struct ServerListener {
    server_timeout: u128,
    last_heard: u128,
    awaiting_connected: bool,
}

/// What the listener does with a message from the broker.
#[derive(Debug, PartialEq, Eq, Structural)]
pub enum ListenerAction {
    /// A frame: pass it to the hooks, and to the waiting connection attempt when
    /// `to_connect` holds.
    Deliver { to_connect: bool },
    /// A heart-beat: nothing to pass on.
    Heartbeat,
}

impl ServerListener {
    /// How long, in milliseconds, the broker may stay silent; 0 for no limit.
    pub closed spec fn timeout(&self) -> u128 {
        self.server_timeout
    }

    /// When, in milliseconds, the listener last heard from the broker.
    pub closed spec fn last_heard_at(&self) -> u128 {
        self.last_heard
    }

    /// Whether a connection attempt still awaits the broker's first frame.
    pub closed spec fn awaiting(&self) -> bool {
        self.awaiting_connected
    }

    /// A listener started at time `now` (milliseconds), with a connection attempt waiting.
    pub fn new(server_timeout: u128, now: u128) -> (r: ServerListener)
        ensures
            r.timeout() == server_timeout,
            r.last_heard_at() == now,
            r.awaiting(),
    {
        ServerListener { server_timeout, last_heard: now, awaiting_connected: true }
    }

    /// Whether, at time `now`, the broker has been silent for longer than it may be; never
    /// when there is no limit.
    pub fn heartbeat_overdue(&self, now: u128) -> (r: bool)
        ensures
            r == (self.timeout() > 0 && now > self.last_heard_at() && now - self.last_heard_at()
                > self.timeout()),
    {
        let elapsed: u128 = if now > self.last_heard {
            now - self.last_heard
        } else {
            0
        };
        self.server_timeout > 0 && elapsed > self.server_timeout
    }

    /// Takes a message received at time `now`: any message shows the broker alive. A frame
    /// goes to the hooks, and the first one goes to the connection attempt too when it
    /// still waits (`connect_waiting`).
    pub fn on_message(
        &mut self,
        now: u128,
        message: &StompMessage<ServerCommand>,
        connect_waiting: bool,
    ) -> (r: ListenerAction)
        ensures
            final(self).timeout() == old(self).timeout(),
            final(self).last_heard_at() == now,
            match message {
                StompMessage::Frame(_) => {
                    &&& r == (ListenerAction::Deliver {
                        to_connect: old(self).awaiting() && connect_waiting,
                    })
                    &&& final(self).awaiting() == (old(self).awaiting() && !connect_waiting)
                },
                StompMessage::Ping => {
                    &&& r == ListenerAction::Heartbeat
                    &&& final(self).awaiting() == old(self).awaiting()
                },
            },
    {
        self.last_heard = now;
        match message {
            StompMessage::Frame(_) => {
                let to_connect = self.awaiting_connected && connect_waiting;
                if to_connect {
                    self.awaiting_connected = false;
                }
                ListenerAction::Deliver { to_connect }
            },
            StompMessage::Ping => ListenerAction::Heartbeat,
        }
    }
}

} // verus!
