//! The order in which a modem is brought up and a first connection is made.
//!
//! The caller sends the command of each step and, when the modem has agreed,
//! asks for the step that follows.

use vstd::prelude::*;

verus! {

/// How the modem reports its link to the access point.
#[derive(Clone, Copy, Debug, PartialEq, Eq, Structural)]
pub enum LinkStatus {
    /// Joined to an access point, with an address.
    ConnectedToAccessPoint,
    /// Joined to an access point; the last transmission has ended.
    TransmissionEnded,
    /// Anything else: not joined.
    Other,
}

/// One step of the bring-up.
#[derive(Clone, Copy, Debug, PartialEq, Eq, Structural)]
pub enum Step {
    /// Ask whether the modem listens.
    SelfTest,
    /// Ask for the firmware version.
    FirmwareVersion,
    /// Ask for the wifi mode.
    ReadWifiMode,
    /// Set the wifi mode to station.
    SetStationMode,
    /// Ask for the status of the link.
    ReadStatus,
    /// Ask for the local addresses.
    ReadAddress,
    /// Join the access point.
    JoinAccessPoint,
    /// Ask for the status of the link once more, after joining.
    ConfirmStatus,
    /// Ask for the local address that is reported last.
    ReportAddress,
    /// Open the connection to the remote host.
    OpenConnection,
    /// Close the connection.
    CloseConnection,
    /// Nothing is left to do.
    Finished,
}

/// Whether the access point has yet to be joined.
pub open spec fn must_join(status: LinkStatus) -> bool {
    status != LinkStatus::ConnectedToAccessPoint && status != LinkStatus::TransmissionEnded
}

/// The step that follows `step`, where `status` is the status of the link
/// as the modem last reported it. The access point is joined only if the
/// modem is not joined to it already.
pub open spec fn successor(step: Step, status: LinkStatus) -> Step {
    match step {
        Step::SelfTest => Step::FirmwareVersion,
        Step::FirmwareVersion => Step::ReadWifiMode,
        Step::ReadWifiMode => Step::SetStationMode,
        Step::SetStationMode => Step::ReadStatus,
        Step::ReadStatus => Step::ReadAddress,
        Step::ReadAddress => if must_join(status) {
            Step::JoinAccessPoint
        } else {
            Step::ReportAddress
        },
        Step::JoinAccessPoint => Step::ConfirmStatus,
        Step::ConfirmStatus => Step::ReportAddress,
        Step::ReportAddress => Step::OpenConnection,
        Step::OpenConnection => Step::CloseConnection,
        Step::CloseConnection => Step::Finished,
        Step::Finished => Step::Finished,
    }
}

/// Tells whether the access point has yet to be joined.
pub fn needs_join(status: LinkStatus) -> (needed: bool)
    ensures
        needed == must_join(status),
{
    match status {
        LinkStatus::ConnectedToAccessPoint => false,
        LinkStatus::TransmissionEnded => false,
        LinkStatus::Other => true,
    }
}

/// The first step.
pub fn first_step() -> (step: Step)
    ensures
        step == Step::SelfTest,
{
    Step::SelfTest
}

/// Gives the step that follows `step`.
pub fn next_step(step: Step, status: LinkStatus) -> (next: Step)
    ensures
        next == successor(step, status),
{
    match step {
        Step::SelfTest => Step::FirmwareVersion,
        Step::FirmwareVersion => Step::ReadWifiMode,
        Step::ReadWifiMode => Step::SetStationMode,
        Step::SetStationMode => Step::ReadStatus,
        Step::ReadStatus => Step::ReadAddress,
        Step::ReadAddress => if needs_join(status) {
            Step::JoinAccessPoint
        } else {
            Step::ReportAddress
        },
        Step::JoinAccessPoint => Step::ConfirmStatus,
        Step::ConfirmStatus => Step::ReportAddress,
        Step::ReportAddress => Step::OpenConnection,
        Step::OpenConnection => Step::CloseConnection,
        Step::CloseConnection => Step::Finished,
        Step::Finished => Step::Finished,
    }
}

/// The number of steps that are left from `step` at most.
pub open spec fn steps_left(step: Step) -> nat {
    match step {
        Step::SelfTest => 11,
        Step::FirmwareVersion => 10,
        Step::ReadWifiMode => 9,
        Step::SetStationMode => 8,
        Step::ReadStatus => 7,
        Step::ReadAddress => 6,
        Step::JoinAccessPoint => 5,
        Step::ConfirmStatus => 4,
        Step::ReportAddress => 3,
        Step::OpenConnection => 2,
        Step::CloseConnection => 1,
        Step::Finished => 0,
    }
}

/// The bring-up comes to its end: each step but the last is followed by one
/// that is nearer to it.
pub proof fn bringup_ends(step: Step, status: LinkStatus)
    ensures
        step != Step::Finished ==> steps_left(successor(step, status)) < steps_left(step),
        step == Step::Finished ==> successor(step, status) == Step::Finished,
{
}

} // verus!
