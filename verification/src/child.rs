//! What a child process's status queries and waits come to.
use vstd::prelude::*;

verus! {

#[derive(Debug, Clone, Copy, PartialEq, Eq, Structural)]
pub enum ClientStatus {
    Alive,
    Dead,
    Unknown,
}

#[derive(Debug, Clone, Copy, PartialEq, Eq, Structural)]
pub enum ClientError {
    CreateProcessFailed(u32),
    SpawnLoggerFailed(u32),
    CreateJobObjectFailed,
    SetJobInformationFailed,
    NtAssignProcessToJobObjectFailed,
    WaitTimeout,
    WaitFailed,
}

/// The exit status of a process that is still running.
pub const STILL_ACTIVE: i32 = 259;

/// The status a wait ends with when its time runs out.
pub const STATUS_TIMEOUT: i32 = 0x102;

impl ClientStatus {
    /// The state a query of the process shows: unknown when the query
    /// failed, alive while the exit status says still active, else dead.
    pub fn from_query(query_status: i32, exit_status: i32) -> (r: Self)
        ensures
            query_status != 0 ==> r == ClientStatus::Unknown,
            query_status == 0 && exit_status != STILL_ACTIVE ==> r == ClientStatus::Dead,
            query_status == 0 && exit_status == STILL_ACTIVE ==> r == ClientStatus::Alive,
    {
        if query_status != 0 {
            return ClientStatus::Unknown;
        }
        if exit_status != STILL_ACTIVE {
            return ClientStatus::Dead;
        }
        ClientStatus::Alive
    }

    pub fn is_alive(&self) -> (r: bool)
        ensures
            r == (*self == ClientStatus::Alive),
    {
        *self == ClientStatus::Alive
    }
}

/// What a wait on the process comes to, from the status it returned.
pub fn wait_result(status: i32) -> (r: Result<(), ClientError>)
    ensures
        status == 0 ==> r is Ok,
        status == STATUS_TIMEOUT ==> r == Err::<(), _>(ClientError::WaitTimeout),
        status != 0 && status != STATUS_TIMEOUT ==> r == Err::<(), _>(ClientError::WaitFailed),
{
    if status == 0 {
        Ok(())
    } else if status == STATUS_TIMEOUT {
        Err(ClientError::WaitTimeout)
    } else {
        Err(ClientError::WaitFailed)
    }
}

} // verus!
