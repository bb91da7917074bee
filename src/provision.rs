use vstd::prelude::*;

verus! {

/// What ensuring a parameter file takes, given whether it is already on disk.
#[derive(Clone, Copy, Debug, PartialEq, Eq, Structural)]
pub enum ProvisionStep {
    /// The file is there: touch nothing, fetch nothing.
    Skip,
    /// Fetch the file from its remote location and write it, creating parent directories.
    Fetch,
}

/// Why a parameter file could not be provisioned. Neither is retried.
#[derive(Clone, Copy, Debug, PartialEq, Eq, Structural)]
pub enum ProvisionError {
    /// The request did not complete.
    Network,
    /// The server answered with this non-success status.
    Status(u16),
}

pub open spec fn provision_step(file_exists: bool) -> ProvisionStep {
    if file_exists {
        ProvisionStep::Skip
    } else {
        ProvisionStep::Fetch
    }
}

/// Decides whether a parameter file must be fetched.
pub fn plan_provision(file_exists: bool) -> (r: ProvisionStep)
    ensures
        r == provision_step(file_exists),
{
    if file_exists {
        ProvisionStep::Skip
    } else {
        ProvisionStep::Fetch
    }
}

pub open spec fn success_status(code: u16) -> bool {
    200 <= code <= 299
}

/// An HTTP status in the success class 2xx.
pub fn is_success_status(code: u16) -> (r: bool)
    ensures
        r == success_status(code),
{
    200 <= code && code <= 299
}

/// Accepts a completed download only with a success status; `status` is
/// `None` when the request itself failed.
pub fn check_download(status: Option<u16>) -> (r: Result<(), ProvisionError>)
    ensures
        match status {
            None => r == Err::<(), ProvisionError>(ProvisionError::Network),
            Some(c) => if success_status(c) {
                r is Ok
            } else {
                r == Err::<(), ProvisionError>(ProvisionError::Status(c))
            },
        },
{
    match status {
        None => Err(ProvisionError::Network),
        Some(c) => if is_success_status(c) {
            Ok(())
        } else {
            Err(ProvisionError::Status(c))
        },
    }
}

/// The parameter file after one successful call of the provisioner, and how
/// many fetches that call made; `file` is what is at the path before the call
/// and `remote` what the remote location serves.
pub open spec fn provision_effect(file: Option<Seq<u8>>, remote: Seq<u8>) -> (Option<Seq<u8>>, nat) {
    match provision_step(file is Some) {
        ProvisionStep::Skip => (file, 0),
        ProvisionStep::Fetch => (Some(remote), 1),
    }
}

/// Two calls of the provisioner on one path fetch once in all when the file
/// was missing and never when it was there; the second call fetches nothing
/// and leaves the file as the first call left it, whatever the remote serves.
pub proof fn lemma_provision_idempotent(file: Option<Seq<u8>>, remote1: Seq<u8>, remote2: Seq<u8>)
    ensures
        ({
            let (f1, n1) = provision_effect(file, remote1);
            let (f2, n2) = provision_effect(f1, remote2);
            &&& n2 == 0
            &&& f2 == f1
            &&& f1 is Some
            &&& n1 + n2 == (if file is Some {
                0nat
            } else {
                1nat
            })
        }),
{
}

} // verus!
