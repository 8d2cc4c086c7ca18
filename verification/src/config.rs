//! The settings of a run.
use vstd::prelude::*;
use std::path::Path;

verus! {

/// Where the output goes when nothing else is said.
pub const DEF_OUT_PATH: &'static str = "output.csv";

/// The connect timeout in seconds, when nothing else is said.
pub const CONN_TO: u64 = 30;

/// The read timeout in seconds, when nothing else is said.
pub const READ_TO: u64 = 30;

/// How many redirects a request follows, when nothing else is said.
pub const MAX_REDIRECTS: usize = 5;

/// How many retries a fetch may make, when nothing else is said.
pub const MAX_RETRIES: u64 = 3;

/// Declares `std::path::Path`, a path of the file system. The library carries
/// paths and never looks into one.
#[verifier::external_type_specification]
#[verifier::external_body]
pub struct ExPath(Path);

/// Calls `num_cpus::get`, the number of logical processors that this process
/// may use. It depends on the machine, so nothing is claimed of it.
#[verifier::external_body]
fn logical_cpus() -> usize {
    num_cpus::get()
}

/// The settings of a run: the input files, the output file, and the limits
/// of a fetch.
pub struct TitleGrabber<'a> {
    pub files: Vec<&'a Path>,
    pub output_path: &'a Path,
    pub connect_timeout: u64,
    pub read_timeout: u64,
    pub max_redirects: usize,
    pub max_retries: u64,
    pub max_threads: usize,
}

impl<'a> TitleGrabber<'a> {
    /// The settings with every limit at its default and `max_threads` workers.
    pub fn with_defaults(files: Vec<&'a Path>, output_path: &'a Path, max_threads: usize) -> (r:
        TitleGrabber<'a>)
        ensures
            r == (TitleGrabber {
                files,
                output_path,
                connect_timeout: CONN_TO,
                read_timeout: READ_TO,
                max_redirects: MAX_REDIRECTS,
                max_retries: MAX_RETRIES,
                max_threads,
            }),
    {
        TitleGrabber {
            files,
            output_path,
            connect_timeout: CONN_TO,
            read_timeout: READ_TO,
            max_redirects: MAX_REDIRECTS,
            max_retries: MAX_RETRIES,
            max_threads,
        }
    }

    /// The settings with every limit at its default, and as many workers as
    /// the machine has logical processors. `debugging_enabled` only concerns
    /// what the program logs: no setting depends on it.
    #[allow(unused_variables)]
    pub fn new(files: Vec<&'a Path>, output_path: &'a Path, debugging_enabled: bool) -> (r:
        TitleGrabber<'a>)
        ensures
            r.files == files,
            r.output_path == output_path,
            r.connect_timeout == CONN_TO,
            r.read_timeout == READ_TO,
            r.max_redirects == MAX_REDIRECTS,
            r.max_retries == MAX_RETRIES,
    {
        TitleGrabber::with_defaults(files, output_path, logical_cpus())
    }

    /// Sets the connect timeout, in seconds.
    pub fn with_connect_timeout(&mut self, timeout: u64) -> (r: &mut Self)
        ensures
            *r == (TitleGrabber { connect_timeout: timeout, ..*old(self) }),
            *final(self) == *final(r),
    {
        self.connect_timeout = timeout;
        self
    }

    /// Sets the read timeout, in seconds.
    pub fn with_read_timeout(&mut self, timeout: u64) -> (r: &mut Self)
        ensures
            *r == (TitleGrabber { read_timeout: timeout, ..*old(self) }),
            *final(self) == *final(r),
    {
        self.read_timeout = timeout;
        self
    }

    /// Sets how many redirects a request follows.
    pub fn with_max_redirects(&mut self, redirects: usize) -> (r: &mut Self)
        ensures
            *r == (TitleGrabber { max_redirects: redirects, ..*old(self) }),
            *final(self) == *final(r),
    {
        self.max_redirects = redirects;
        self
    }

    /// Sets how many retries a fetch may make.
    pub fn with_max_retries(&mut self, retries: u64) -> (r: &mut Self)
        ensures
            *r == (TitleGrabber { max_retries: retries, ..*old(self) }),
            *final(self) == *final(r),
    {
        self.max_retries = retries;
        self
    }

    /// Sets how many workers fetch at the same time.
    pub fn with_max_threads(&mut self, threads: usize) -> (r: &mut Self)
        ensures
            *r == (TitleGrabber { max_threads: threads, ..*old(self) }),
            *final(self) == *final(r),
    {
        self.max_threads = threads;
        self
    }
}

} // verus!
