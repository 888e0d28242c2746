//! How a connection comes about: by opening the device, by duplicating the descriptor of another
//! connection, or by having the mount helper mount the file system and send a descriptor.
//!
//! In each case a ring thread is started on the descriptor, and only then is there a connection.
//! [`Setup`] decides what is done next; whoever runs it performs the actions and reports back
//! what happened. `E` is whatever a failed action reports.

use vstd::prelude::*;

use crate::connection::FuseConnection;
use crate::error::IoError;

verus! {

/// The device.
pub const DEV_FUSE: &'static str = "/dev/fuse";

/// The environment variable that tells the mount helper over which socket to send the descriptor.
pub const COMMFD_ENV: &'static str = "_FUSE_COMMFD";

/// What precedes the mount options on the command line of the mount helper.
pub const OPTIONS_FLAG: &'static str = "-o";

/// The name of the ring thread.
pub const RING_THREAD_NAME: &'static str = "fuse-io-uring";

/// What is waited for on the way to a connection.
#[derive(Clone, Copy, Debug, PartialEq, Eq, Structural)]
pub enum Setup {
    /// The device is opened.
    Opening,
    /// A descriptor is duplicated.
    Duplicating,
    /// A pair of sockets is made.
    Pairing,
    /// The mount helper is looked for.
    Finding {
        /// The socket of the mount helper.
        helper_fd: i32,
        /// The socket on which the descriptor is received.
        own_fd: i32,
    },
    /// The mount helper is started.
    Spawning {
        /// The socket on which the descriptor is received.
        own_fd: i32,
    },
    /// The mount helper is running.
    Mounting {
        /// The socket on which the descriptor is received.
        own_fd: i32,
    },
    /// The descriptor is received.
    Receiving,
    /// The ring thread is started.
    Starting {
        /// The descriptor of the device.
        fd: i32,
    },
}

/// What is done next on the way to a connection.
#[derive(Clone, Copy, Debug, PartialEq, Eq, Structural)]
pub enum SetupAction {
    /// Open the device for reading and writing.
    Open,
    /// Duplicate this descriptor.
    Duplicate(i32),
    /// Make a pair of sockets.
    MakePair,
    /// Look for the mount helper.
    FindHelper,
    /// Start the mount helper and tell it this socket.
    SpawnHelper(i32),
    /// Wait for the mount helper to exit.
    AwaitHelper,
    /// Receive a message on this socket.
    Receive(i32),
    /// Start the ring thread on this descriptor.
    StartRing(i32),
}

/// What a received message carried.
pub enum Control {
    /// A list of descriptors.
    Rights(Vec<i32>),
    /// Anything else, or nothing.
    Other,
}

/// What happened on the way to a connection.
pub enum SetupEvent<E> {
    /// The device was opened.
    Opened(Result<i32, E>),
    /// Duplicating a descriptor returned `fd`, which is negative where it failed with `errno`.
    Duplicated {
        /// The new descriptor.
        fd: i32,
        /// The error number.
        errno: i32,
    },
    /// A pair of sockets was made: that of the mount helper, and our own.
    Paired(Result<(i32, i32), E>),
    /// The mount helper was looked for.
    Found(Result<(), E>),
    /// The mount helper was started.
    Spawned(Result<(), E>),
    /// The mount helper exited, with success or not.
    Exited(Result<bool, E>),
    /// A message was received.
    Received(Result<Control, E>),
    /// The ring thread was started.
    Started(Result<(), E>),
}

/// Why there is no connection.
#[derive(Debug, PartialEq, Eq)]
pub enum SetupError<E> {
    /// An action failed.
    Action(E),
    /// The outcome of an action is not good enough.
    Outcome(IoError),
}

/// Where the way to a connection leads.
pub enum SetupStep<E> {
    /// To another action.
    Next(Setup, SetupAction),
    /// To its end.
    Done(Result<FuseConnection, SetupError<E>>),
}

impl<E> SetupEvent<E> {
    /// The descriptor of the device that the event brings.
    pub open spec fn obtained(self) -> Option<i32> {
        match self {
            SetupEvent::Opened(Ok(fd)) => Some(fd),
            SetupEvent::Duplicated { fd, .. } => if fd < 0 {
                None
            } else {
                Some(fd)
            },
            SetupEvent::Received(Ok(Control::Rights(fds))) => if fds@.len() == 0 {
                None
            } else {
                Some(fds@[0])
            },
            _ => None,
        }
    }
}

impl SetupAction {
    /// The descriptor on which a ring thread is started.
    pub open spec fn starting(self) -> Option<i32> {
        match self {
            SetupAction::StartRing(fd) => Some(fd),
            _ => None,
        }
    }
}

impl Setup {
    /// The descriptor on which a ring thread is being started.
    pub open spec fn starting(self) -> Option<i32> {
        match self {
            Setup::Starting { fd } => Some(fd),
            _ => None,
        }
    }

    /// The event tells what is waited for.
    pub open spec fn spec_accepts<E>(self, event: SetupEvent<E>) -> bool {
        match self {
            Setup::Opening => event is Opened,
            Setup::Duplicating => event is Duplicated,
            Setup::Pairing => event is Paired,
            Setup::Finding { .. } => event is Found,
            Setup::Spawning { .. } => event is Spawned,
            Setup::Mounting { .. } => event is Exited,
            Setup::Receiving => event is Received,
            Setup::Starting { .. } => event is Started,
        }
    }

    /// Where an event leads. A failed action ends the way with its error.
    pub open spec fn spec_step<E>(self, event: SetupEvent<E>) -> SetupStep<E> {
        match (self, event) {
            (Setup::Opening, SetupEvent::Opened(Ok(fd))) => start_ring(fd),
            (Setup::Opening, SetupEvent::Opened(Err(error))) => failed(error),
            (Setup::Duplicating, SetupEvent::Duplicated { fd, errno }) => if fd < 0 {
                not_good_enough(IoError::Os(errno))
            } else {
                start_ring(fd)
            },
            (Setup::Pairing, SetupEvent::Paired(Ok((helper_fd, own_fd)))) => SetupStep::Next(
                Setup::Finding { helper_fd, own_fd },
                SetupAction::FindHelper,
            ),
            (Setup::Pairing, SetupEvent::Paired(Err(error))) => failed(error),
            (Setup::Finding { helper_fd, own_fd }, SetupEvent::Found(Ok(_))) => SetupStep::Next(
                Setup::Spawning { own_fd },
                SetupAction::SpawnHelper(helper_fd),
            ),
            (Setup::Finding { .. }, SetupEvent::Found(Err(error))) => failed(error),
            (Setup::Spawning { own_fd }, SetupEvent::Spawned(Ok(_))) => SetupStep::Next(
                Setup::Mounting { own_fd },
                SetupAction::AwaitHelper,
            ),
            (Setup::Spawning { .. }, SetupEvent::Spawned(Err(error))) => failed(error),
            (Setup::Mounting { own_fd }, SetupEvent::Exited(Ok(success))) => if success {
                SetupStep::Next(Setup::Receiving, SetupAction::Receive(own_fd))
            } else {
                not_good_enough(IoError::FusermountFailed)
            },
            (Setup::Mounting { .. }, SetupEvent::Exited(Err(error))) => failed(error),
            (Setup::Receiving, SetupEvent::Received(Ok(Control::Rights(fds)))) => if fds@.len()
                == 0 {
                not_good_enough(IoError::NoFuseFd)
            } else {
                start_ring(fds@[0])
            },
            (Setup::Receiving, SetupEvent::Received(Ok(Control::Other))) => not_good_enough(
                IoError::GetFuseFdFailed,
            ),
            (Setup::Receiving, SetupEvent::Received(Err(error))) => failed(error),
            (Setup::Starting { fd }, SetupEvent::Started(Ok(_))) => SetupStep::Done(
                Ok(FuseConnection { fd }),
            ),
            (Setup::Starting { .. }, SetupEvent::Started(Err(error))) => failed(error),
            _ => arbitrary(),
        }
    }

    /// Whether the event can be handed to [`Setup::step`].
    pub fn accepts<E>(&self, event: &SetupEvent<E>) -> (accepted: bool)
        ensures
            accepted == self.spec_accepts(*event),
    {
        match (self, event) {
            (Setup::Opening, SetupEvent::Opened(_)) => true,
            (Setup::Duplicating, SetupEvent::Duplicated { .. }) => true,
            (Setup::Pairing, SetupEvent::Paired(_)) => true,
            (Setup::Finding { .. }, SetupEvent::Found(_)) => true,
            (Setup::Spawning { .. }, SetupEvent::Spawned(_)) => true,
            (Setup::Mounting { .. }, SetupEvent::Exited(_)) => true,
            (Setup::Receiving, SetupEvent::Received(_)) => true,
            (Setup::Starting { .. }, SetupEvent::Started(_)) => true,
            _ => false,
        }
    }

    /// Decides where an event leads.
    pub fn step<E>(self, event: SetupEvent<E>) -> (step: SetupStep<E>)
        requires
            self.spec_accepts(event),
        ensures
            step == self.spec_step(event),
    {
        match (self, event) {
            (Setup::Opening, SetupEvent::Opened(Ok(fd))) => Self::start(fd),
            (Setup::Opening, SetupEvent::Opened(Err(error))) => Self::fail(error),
            (Setup::Duplicating, SetupEvent::Duplicated { fd, errno }) => {
                if fd < 0 {
                    SetupStep::Done(Err(SetupError::Outcome(IoError::Os(errno))))
                } else {
                    Self::start(fd)
                }
            },
            (Setup::Pairing, SetupEvent::Paired(Ok((helper_fd, own_fd)))) => SetupStep::Next(
                Setup::Finding { helper_fd, own_fd },
                SetupAction::FindHelper,
            ),
            (Setup::Pairing, SetupEvent::Paired(Err(error))) => Self::fail(error),
            (Setup::Finding { helper_fd, own_fd }, SetupEvent::Found(Ok(_))) => SetupStep::Next(
                Setup::Spawning { own_fd },
                SetupAction::SpawnHelper(helper_fd),
            ),
            (Setup::Finding { .. }, SetupEvent::Found(Err(error))) => Self::fail(error),
            (Setup::Spawning { own_fd }, SetupEvent::Spawned(Ok(_))) => SetupStep::Next(
                Setup::Mounting { own_fd },
                SetupAction::AwaitHelper,
            ),
            (Setup::Spawning { .. }, SetupEvent::Spawned(Err(error))) => Self::fail(error),
            (Setup::Mounting { own_fd }, SetupEvent::Exited(Ok(success))) => {
                if success {
                    SetupStep::Next(Setup::Receiving, SetupAction::Receive(own_fd))
                } else {
                    SetupStep::Done(Err(SetupError::Outcome(IoError::FusermountFailed)))
                }
            },
            (Setup::Mounting { .. }, SetupEvent::Exited(Err(error))) => Self::fail(error),
            (Setup::Receiving, SetupEvent::Received(Ok(Control::Rights(fds)))) => {
                if fds.len() == 0 {
                    SetupStep::Done(Err(SetupError::Outcome(IoError::NoFuseFd)))
                } else {
                    Self::start(fds[0])
                }
            },
            (Setup::Receiving, SetupEvent::Received(Ok(Control::Other))) => SetupStep::Done(
                Err(SetupError::Outcome(IoError::GetFuseFdFailed)),
            ),
            (Setup::Receiving, SetupEvent::Received(Err(error))) => Self::fail(error),
            (Setup::Starting { fd }, SetupEvent::Started(Ok(_))) => SetupStep::Done(
                Ok(FuseConnection { fd }),
            ),
            (Setup::Starting { .. }, SetupEvent::Started(Err(error))) => Self::fail(error),
            _ => vstd::pervasive::unreached(),
        }
    }

    fn fail<E>(error: E) -> (step: SetupStep<E>)
        ensures
            step == failed(error),
    {
        SetupStep::Done(Err(SetupError::Action(error)))
    }

    fn start<E>(fd: i32) -> (step: SetupStep<E>)
        ensures
            step == start_ring::<E>(fd),
    {
        SetupStep::Next(Setup::Starting { fd }, SetupAction::StartRing(fd))
    }

    /// A ring thread is started only on a descriptor that was opened, duplicated or received,
    /// and a connection is made only on the descriptor on which a ring thread was started.
    pub proof fn law_connection_is_on_the_descriptor_obtained<E>(self, event: SetupEvent<E>)
        requires
            self.spec_accepts(event),
        ensures
            self.spec_step(event) matches SetupStep::Next(_, SetupAction::StartRing(fd))
                ==> event.obtained() == Some(fd),
            self.spec_step(event) matches SetupStep::Next(next, action) ==> next.starting()
                == action.starting(),
            self.spec_step(event) matches SetupStep::Done(Ok(connection)) ==> self.starting()
                == Some(connection.fd) && (event matches SetupEvent::Started(Ok(_))),
    {
    }
}

/// A descriptor was obtained, so the ring thread is started on it.
pub open spec fn start_ring<E>(fd: i32) -> SetupStep<E> {
    SetupStep::Next(Setup::Starting { fd }, SetupAction::StartRing(fd))
}

/// The way ends because an action failed.
pub open spec fn failed<E>(error: E) -> SetupStep<E> {
    SetupStep::Done(Err(SetupError::Action(error)))
}

/// The way ends because the outcome of an action is not good enough.
pub open spec fn not_good_enough<E>(error: IoError) -> SetupStep<E> {
    SetupStep::Done(Err(SetupError::Outcome(error)))
}

impl FuseConnection {
    /// Begins a connection by opening the device.
    pub fn new() -> (begun: (Setup, SetupAction))
        ensures
            begun == (Setup::Opening, SetupAction::Open),
    {
        (Setup::Opening, SetupAction::Open)
    }

    /// Begins another connection to the same device, with a ring thread of its own.
    pub fn try_clone(&self) -> (begun: (Setup, SetupAction))
        ensures
            begun == (Setup::Duplicating, SetupAction::Duplicate(self.fd)),
    {
        (Setup::Duplicating, SetupAction::Duplicate(self.fd))
    }

    /// Begins a connection by having the mount helper mount the file system.
    pub fn new_with_unprivileged() -> (begun: (Setup, SetupAction))
        ensures
            begun == (Setup::Pairing, SetupAction::MakePair),
    {
        (Setup::Pairing, SetupAction::MakePair)
    }
}

/// The command line of the mount helper: the flag, the mount options behind it, and the path.
pub fn helper_args<S>(flag: S, options: S, mount_path: S) -> (args: Vec<S>)
    ensures
        args@ == seq![flag, options, mount_path],
{
    let mut args: Vec<S> = Vec::new();
    args.push(flag);
    args.push(options);
    args.push(mount_path);
    args
}

impl Setup {
    /// Each thing that can happen is accepted exactly while it is waited for, whatever it says.
    pub proof fn law_accepts_each_event_in_its_turn<E>(self, event: SetupEvent<E>)
        ensures
            self.spec_accepts(event) <==> {
                ||| self is Opening && event is Opened
                ||| self is Duplicating && event is Duplicated
                ||| self is Pairing && event is Paired
                ||| self is Finding && event is Found
                ||| self is Spawning && event is Spawned
                ||| self is Mounting && event is Exited
                ||| self is Receiving && event is Received
                ||| self is Starting && event is Started
            },
    {
    }

    /// Whatever brings a descriptor leads to a ring thread on it: a device that was opened, a
    /// descriptor that was duplicated, and the first of the descriptors that were received,
    /// however many there are.
    pub proof fn law_descriptor_leads_to_a_ring_on_it<E>(self, event: SetupEvent<E>, fd: i32)
        requires
            self.spec_accepts(event),
            ({
                ||| event matches SetupEvent::Opened(Ok(opened)) && opened == fd
                ||| event matches SetupEvent::Duplicated { fd: duplicate, .. } && duplicate == fd
                    && fd >= 0
                ||| event matches SetupEvent::Received(Ok(Control::Rights(fds))) && fds@.len() > 0
                    && fds@[0] == fd
            }),
        ensures
            self.spec_step(event) matches SetupStep::Next(next, action) && {
                &&& next == (Setup::Starting { fd })
                &&& action == SetupAction::StartRing(fd)
            },
    {
    }

    /// An action that failed ends the way with its own error, whichever action it was.
    pub proof fn law_failed_action_ends_with_its_error<E>(self, event: SetupEvent<E>, error: E)
        requires
            self.spec_accepts(event),
            ({
                ||| event == SetupEvent::<E>::Opened(Err(error))
                ||| event == SetupEvent::<E>::Paired(Err(error))
                ||| event == SetupEvent::<E>::Found(Err(error))
                ||| event == SetupEvent::<E>::Spawned(Err(error))
                ||| event == SetupEvent::<E>::Exited(Err(error))
                ||| event == SetupEvent::<E>::Received(Err(error))
                ||| event == SetupEvent::<E>::Started(Err(error))
            }),
        ensures
            self.spec_step(event) matches SetupStep::Done(Err(SetupError::Action(reported)))
                && reported == error,
    {
    }

    /// The way ends with an error of its own exactly if a descriptor could not be duplicated, the
    /// mount helper exited with a failure, or it sent no descriptor; each has its own error. The
    /// way ends with the error of an action only if that action failed.
    pub proof fn law_errors_have_their_causes<E>(self, event: SetupEvent<E>)
        requires
            self.spec_accepts(event),
        ensures
            match event {
                SetupEvent::Duplicated { fd, errno } => fd < 0 ==> (self.spec_step(event) matches
                    SetupStep::Done(Err(SetupError::Outcome(error))) && error == IoError::Os(
                    errno,
                )),
                SetupEvent::Exited(Ok(success)) => !success ==> (self.spec_step(event) matches
                    SetupStep::Done(Err(SetupError::Outcome(error))) && error
                    == IoError::FusermountFailed),
                SetupEvent::Received(Ok(Control::Rights(fds))) => fds@.len() == 0 ==> (
                self.spec_step(event) matches SetupStep::Done(Err(SetupError::Outcome(error)))
                    && error == IoError::NoFuseFd),
                SetupEvent::Received(Ok(Control::Other)) => self.spec_step(event) matches
                    SetupStep::Done(Err(SetupError::Outcome(error))) && error
                    == IoError::GetFuseFdFailed,
                _ => true,
            },
            self.spec_step(event) matches SetupStep::Done(Err(SetupError::Outcome(_))) ==> {
                ||| event matches SetupEvent::Duplicated { fd, .. } && fd < 0
                ||| event matches SetupEvent::Exited(Ok(success)) && !success
                ||| event matches SetupEvent::Received(Ok(Control::Rights(fds))) && fds@.len()
                    == 0
                ||| event matches SetupEvent::Received(Ok(Control::Other))
            },
            self.spec_step(event) matches SetupStep::Done(Err(SetupError::Action(error))) ==> {
                ||| event == SetupEvent::<E>::Opened(Err(error))
                ||| event == SetupEvent::<E>::Paired(Err(error))
                ||| event == SetupEvent::<E>::Found(Err(error))
                ||| event == SetupEvent::<E>::Spawned(Err(error))
                ||| event == SetupEvent::<E>::Exited(Err(error))
                ||| event == SetupEvent::<E>::Received(Err(error))
                ||| event == SetupEvent::<E>::Started(Err(error))
            },
    {
    }

    /// A mount in which every action succeeds goes through making the sockets, finding, starting
    /// and awaiting the mount helper, and receiving. The helper is told the first socket, the
    /// message is received on the second, and the connection is on the first descriptor in it.
    pub proof fn law_mount_connects_on_the_descriptor_sent<E>(
        helper_fd: i32,
        own_fd: i32,
        fds: Vec<i32>,
    )
        requires
            fds@.len() > 0,
        ensures
            Setup::Pairing.spec_step(SetupEvent::<E>::Paired(Ok((helper_fd, own_fd)))) matches
                SetupStep::Next(finding, find) && {
                &&& find == SetupAction::FindHelper
                &&& finding.spec_accepts(SetupEvent::<E>::Found(Ok(())))
                &&& finding.spec_step(SetupEvent::<E>::Found(Ok(()))) matches SetupStep::Next(
                    spawning,
                    spawn,
                ) && {
                    &&& spawn == SetupAction::SpawnHelper(helper_fd)
                    &&& spawning.spec_accepts(SetupEvent::<E>::Spawned(Ok(())))
                    &&& spawning.spec_step(SetupEvent::<E>::Spawned(Ok(()))) matches
                        SetupStep::Next(mounting, wait) && {
                        &&& wait == SetupAction::AwaitHelper
                        &&& mounting.spec_accepts(SetupEvent::<E>::Exited(Ok(true)))
                        &&& mounting.spec_step(SetupEvent::<E>::Exited(Ok(true))) matches
                            SetupStep::Next(receiving, receive) && {
                            &&& receive == SetupAction::Receive(own_fd)
                            &&& receiving.spec_accepts(
                                SetupEvent::<E>::Received(Ok(Control::Rights(fds))),
                            )
                            &&& receiving.spec_step(
                                SetupEvent::<E>::Received(Ok(Control::Rights(fds))),
                            ) matches SetupStep::Next(starting, start) && {
                                &&& start == SetupAction::StartRing(fds@[0])
                                &&& starting.spec_accepts(SetupEvent::<E>::Started(Ok(())))
                                &&& starting.spec_step(SetupEvent::<E>::Started(Ok(()))) matches
                                    SetupStep::Done(Ok(connection)) && connection.fd == fds@[0]
                            }
                        }
                    }
                }
            },
    {
    }

    /// Once the ring thread was started on a descriptor, there is a connection on it.
    pub proof fn law_started_ring_makes_the_connection<E>(fd: i32)
        ensures
            (Setup::Starting { fd }).spec_step(SetupEvent::<E>::Started(Ok(()))) matches
                SetupStep::Done(Ok(connection)) && connection.fd == fd,
    {
    }

    /// The way through the mount helper goes on exactly with what the last action brought: the
    /// sockets are remembered, the helper is told the first and the message awaited on the
    /// second, and no step is left out.
    pub proof fn law_mount_goes_step_by_step<E>(self, event: SetupEvent<E>)
        requires
            self.spec_accepts(event),
        ensures
            match (self, event) {
                (Setup::Pairing, SetupEvent::Paired(Ok(pair))) => self.spec_step(event) matches
                    SetupStep::Next(Setup::Finding { helper_fd, own_fd }, action) && helper_fd
                    == pair.0 && own_fd == pair.1 && action == SetupAction::FindHelper,
                (Setup::Finding { helper_fd, own_fd }, SetupEvent::Found(Ok(_))) => self.spec_step(
                    event,
                ) matches SetupStep::Next(Setup::Spawning { own_fd: kept }, action) && kept
                    == own_fd && action == SetupAction::SpawnHelper(helper_fd),
                (Setup::Spawning { own_fd }, SetupEvent::Spawned(Ok(_))) => self.spec_step(
                    event,
                ) matches SetupStep::Next(Setup::Mounting { own_fd: kept }, action) && kept
                    == own_fd && action == SetupAction::AwaitHelper,
                (Setup::Mounting { own_fd }, SetupEvent::Exited(Ok(success))) => success ==> (
                self.spec_step(event) matches SetupStep::Next(Setup::Receiving, action) && action
                    == SetupAction::Receive(own_fd)),
                _ => true,
            },
    {
    }
}

} // verus!
