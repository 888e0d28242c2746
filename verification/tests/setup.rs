use fuse_ring::connection::FuseConnection;
use fuse_ring::error::IoError;
use fuse_ring::setup::helper_args;
use fuse_ring::setup::Control;
use fuse_ring::setup::Setup;
use fuse_ring::setup::SetupAction;
use fuse_ring::setup::SetupError;
use fuse_ring::setup::SetupEvent;
use fuse_ring::setup::SetupStep;
use fuse_ring::setup::COMMFD_ENV;
use fuse_ring::setup::DEV_FUSE;
use fuse_ring::setup::OPTIONS_FLAG;
use fuse_ring::setup::RING_THREAD_NAME;

type Event = SetupEvent<&'static str>;

fn next(setup: Setup, event: Event) -> (Setup, SetupAction) {
    assert!(setup.accepts(&event));
    match setup.step(event) {
        SetupStep::Next(setup, action) => (setup, action),
        SetupStep::Done(_) => panic!("there is more to do"),
    }
}

fn end(setup: Setup, event: Event) -> Result<FuseConnection, SetupError<&'static str>> {
    assert!(setup.accepts(&event));
    match setup.step(event) {
        SetupStep::Next(..) => panic!("there is nothing more to do"),
        SetupStep::Done(result) => result,
    }
}

#[test]
fn names_are_those_that_the_system_knows() {
    assert_eq!(DEV_FUSE, "/dev/fuse");
    assert_eq!(COMMFD_ENV, "_FUSE_COMMFD");
    assert_eq!(OPTIONS_FLAG, "-o");
    assert_eq!(RING_THREAD_NAME, "fuse-io-uring");
}

#[test]
fn the_command_line_is_flag_options_path() {
    assert_eq!(helper_args("-o", "ro", "/mnt"), vec!["-o", "ro", "/mnt"]);
}

#[test]
fn opening_leads_to_a_connection() {
    let (setup, action) = FuseConnection::new();
    assert_eq!(action, SetupAction::Open);
    let (setup, action) = next(setup, SetupEvent::Opened(Ok(5)));
    assert_eq!(action, SetupAction::StartRing(5));
    assert_eq!(end(setup, SetupEvent::Started(Ok(()))), Ok(FuseConnection { fd: 5 }));
}

#[test]
fn opening_can_fail() {
    let (setup, _) = FuseConnection::new();
    assert_eq!(end(setup, SetupEvent::Opened(Err("no device"))), Err(SetupError::Action("no device")));
    let (setup, _) = next(setup, SetupEvent::Opened(Ok(5)));
    assert_eq!(end(setup, SetupEvent::Started(Err("no thread"))), Err(SetupError::Action("no thread")));
}

#[test]
fn cloning_duplicates_the_descriptor() {
    let (setup, action) = FuseConnection { fd: 11 }.try_clone();
    assert_eq!(action, SetupAction::Duplicate(11));
    let (setup, action) = next(setup, SetupEvent::Duplicated { fd: 12, errno: 0 });
    assert_eq!(action, SetupAction::StartRing(12));
    assert_eq!(end(setup, SetupEvent::Started(Ok(()))), Ok(FuseConnection { fd: 12 }));
}

#[test]
fn cloning_reports_the_error_number() {
    let (setup, _) = FuseConnection { fd: 11 }.try_clone();
    assert_eq!(
        end(setup, SetupEvent::Duplicated { fd: -1, errno: 24 }),
        Err(SetupError::Outcome(IoError::Os(24)))
    );
}

fn mounting() -> Setup {
    let (setup, action) = FuseConnection::new_with_unprivileged();
    assert_eq!(action, SetupAction::MakePair);
    let (setup, action) = next(setup, SetupEvent::Paired(Ok((6, 7))));
    assert_eq!(action, SetupAction::FindHelper);
    let (setup, action) = next(setup, SetupEvent::Found(Ok(())));
    assert_eq!(action, SetupAction::SpawnHelper(6));
    let (setup, action) = next(setup, SetupEvent::Spawned(Ok(())));
    assert_eq!(action, SetupAction::AwaitHelper);
    setup
}

#[test]
fn mounting_leads_to_a_connection_on_the_first_descriptor() {
    let (setup, action) = next(mounting(), SetupEvent::Exited(Ok(true)));
    assert_eq!(action, SetupAction::Receive(7));
    let (setup, action) = next(setup, SetupEvent::Received(Ok(Control::Rights(vec![20, 21]))));
    assert_eq!(action, SetupAction::StartRing(20));
    assert_eq!(end(setup, SetupEvent::Started(Ok(()))), Ok(FuseConnection { fd: 20 }));
}

#[test]
fn mounting_fails_with_the_mount_helper() {
    assert_eq!(
        end(mounting(), SetupEvent::Exited(Ok(false))),
        Err(SetupError::Outcome(IoError::FusermountFailed))
    );
    assert_eq!(end(mounting(), SetupEvent::Exited(Err("lost"))), Err(SetupError::Action("lost")));
}

#[test]
fn mounting_fails_without_a_descriptor() {
    let (setup, _) = next(mounting(), SetupEvent::Exited(Ok(true)));
    assert_eq!(
        end(setup, SetupEvent::Received(Ok(Control::Rights(vec![])))),
        Err(SetupError::Outcome(IoError::NoFuseFd))
    );
    assert_eq!(
        end(setup, SetupEvent::Received(Ok(Control::Other))),
        Err(SetupError::Outcome(IoError::GetFuseFdFailed))
    );
    assert_eq!(end(setup, SetupEvent::Received(Err("closed"))), Err(SetupError::Action("closed")));
}

#[test]
fn mounting_stops_at_the_first_failed_action() {
    let (setup, _) = FuseConnection::new_with_unprivileged();
    assert_eq!(end(setup, SetupEvent::Paired(Err("pair"))), Err(SetupError::Action("pair")));
    let (setup, _) = next(setup, SetupEvent::Paired(Ok((6, 7))));
    assert_eq!(end(setup, SetupEvent::Found(Err("find"))), Err(SetupError::Action("find")));
    let (setup, _) = next(setup, SetupEvent::Found(Ok(())));
    assert_eq!(end(setup, SetupEvent::Spawned(Err("spawn"))), Err(SetupError::Action("spawn")));
}

#[test]
fn events_out_of_turn_are_not_accepted() {
    let (setup, _) = FuseConnection::new();
    let early: Event = SetupEvent::Started(Ok(()));
    assert!(!setup.accepts(&early));
    let other: Event = SetupEvent::Exited(Ok(true));
    assert!(!setup.accepts(&other));
}
