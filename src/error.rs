use vstd::prelude::*;

verus! {

#[verifier::external_type_specification]
#[verifier::external_body]
pub struct ExZipError(zip::result::ZipError);

/// Why a download failed.
#[derive(Debug)]
pub enum DownloadError {
    InvaildUrl,
    Timeout,
    /// Any other transport failure, with its message.
    Other(String),
    /// The server answered with a status other than success.
    Status(u16),
    /// Reading or writing the cached file failed, with the message.
    Io(String),
}

impl DownloadError {
    /// The kind of a transport failure: a timeout first, then a request that
    /// could not be built (a bad url), then an error status, else any other.
    pub fn classify(is_timeout: bool, is_builder: bool, status: Option<u16>, message: String) -> (r:
        DownloadError)
        ensures
            is_timeout ==> r is Timeout,
            !is_timeout && is_builder ==> r is InvaildUrl,
            !is_timeout && !is_builder && status is Some ==> r == DownloadError::Status(
                status->0,
            ),
            !is_timeout && !is_builder && status is None ==> r == DownloadError::Other(message),
    {
        if is_timeout {
            DownloadError::Timeout
        } else if is_builder {
            DownloadError::InvaildUrl
        } else {
            match status {
                Some(code) => DownloadError::Status(code),
                None => DownloadError::Other(message),
            }
        }
    }
}

/// The errors of installing and launching a profile.
#[derive(Debug)]
pub enum CoreError {
    ZipError(zip::result::ZipError),
    DownloadError(DownloadError),
    /// A file-system failure, with its message.
    IoError(String),
    MinecraftVersionNotFound,
    ProfileNotFound(String),
    /// The game exited with this non-zero code.
    MinecraftFailure(i32),
}

/// The errors of installing a profile's files.
#[derive(Debug)]
pub enum InstallationError {
    ZipError(zip::result::ZipError),
    DownloadError(DownloadError),
    IoError(String),
}

/// The errors of running a profile.
#[derive(Debug)]
pub enum ExecutionError {
    InstallationError(InstallationError),
    ProfileDoesntExist(String),
    /// The game exited with this non-zero code.
    MinecraftError(i32),
    IoError(String),
}

/// The result of a game run that exited with `code`: success on zero, else
/// `MinecraftFailure` carrying the code.
pub fn exit_outcome(code: i32) -> (r: Result<(), CoreError>)
    ensures
        r is Ok == (code == 0),
        r matches Err(e) ==> e == CoreError::MinecraftFailure(code),
{
    if code == 0 {
        Ok(())
    } else {
        Err(CoreError::MinecraftFailure(code))
    }
}

} // verus!
