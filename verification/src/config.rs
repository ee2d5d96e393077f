use vstd::prelude::*;
use crate::error::{ErrorView, UploadError};

verus! {

/// Largest file, in bytes, that is still uploaded.
pub const MAX_FILE_SIZE: u64 = 1_000_000_000;

/// Number of upload workers.
pub const MAX_THREADS: usize = 8;

/// Name of the remote folder that receives the mirrored tree.
pub const DRIVE_ROOT_NAME: &'static str = "ImportantFiles";

/// The long-lived values with which an access token is obtained.
#[derive(Debug, Clone)]
pub struct OAuthConfig {
    pub client_id: String,
    pub client_secret: String,
    pub refresh_token: String,
}

/// Everything a run is configured with; read-only once built.
#[derive(Debug, Clone)]
pub struct Config {
    pub oauth: OAuthConfig,
    pub root_directory: String,
    pub max_file_size: u64,
    pub worker_count: usize,
}

impl Config {
    /// The configuration with the standard size limit and pool size.
    pub fn standard(oauth: OAuthConfig, root_directory: String) -> (c: Config)
        ensures
            c.oauth == oauth,
            c.root_directory == root_directory,
            c.max_file_size == MAX_FILE_SIZE,
            c.worker_count == MAX_THREADS,
    {
        Config { oauth, root_directory, max_file_size: MAX_FILE_SIZE, worker_count: MAX_THREADS }
    }

    /// The standard configuration for the root directory that was found;
    /// without one there is nothing to mirror.
    pub fn resolve(oauth: OAuthConfig, root_directory: Option<String>) -> (r: Result<
        Config,
        UploadError,
    >)
        ensures
            root_directory is None ==> r is Err && r->Err_0@ == ErrorView::Configuration,
            root_directory matches Some(root) ==> r is Ok && r->Ok_0.oauth == oauth
                && r->Ok_0.root_directory@ == root@ && r->Ok_0.max_file_size == MAX_FILE_SIZE
                && r->Ok_0.worker_count == MAX_THREADS,
    {
        match root_directory {
            Some(root) => Ok(Config::standard(oauth, root)),
            None => Err(UploadError::Configuration),
        }
    }

    /// Whether a file of `size` bytes is within the limit: the limit itself is.
    pub open spec fn accepts(&self, size: u64) -> bool {
        size <= self.max_file_size
    }

    /// Decides whether a file of `size` bytes is uploaded.
    pub fn accepts_size(&self, size: u64) -> (b: bool)
        ensures
            b == self.accepts(size),
    {
        size <= self.max_file_size
    }
}

} // verus!
