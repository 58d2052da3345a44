//! The settings the proxy runs with.

use vstd::prelude::*;

verus! {

/// The settings as values.
pub struct Settings {
    pub upstream: Seq<char>,
    pub cache_directory: Seq<char>,
    pub expire_time: u64,
    pub bind: Seq<char>,
}

/// The settings of one run.
#[derive(Clone, Debug, PartialEq, Eq)]
pub struct Config {
    upstream: String,
    cache_directory: String,
    expire_time: u64,
    bind: String,
}

impl View for Config {
    type V = Settings;

    closed spec fn view(&self) -> Settings {
        Settings {
            upstream: self.upstream@,
            cache_directory: self.cache_directory@,
            expire_time: self.expire_time,
            bind: self.bind@,
        }
    }
}

impl Config {
    /// Settings from their four values: the base address of the upstream, the
    /// location of the persistent store, the lifetime of a cache entry in
    /// seconds, and the address the transport binds to.
    pub fn new(upstream: String, cache_directory: String, expire_time: u64, bind: String) -> (config:
        Config)
        ensures
            config@ == (Settings {
                upstream: upstream@,
                cache_directory: cache_directory@,
                expire_time,
                bind: bind@,
            }),
    {
        Config { upstream, cache_directory, expire_time, bind }
    }

    /// The base address of the upstream service.
    pub fn upstream(&self) -> (upstream: &str)
        ensures
            upstream@ == self@.upstream,
    {
        self.upstream.as_str()
    }

    /// Where the persistent store lives.
    pub fn cache_directory(&self) -> (directory: &str)
        ensures
            directory@ == self@.cache_directory,
    {
        self.cache_directory.as_str()
    }

    /// The lifetime of a cache entry, in seconds.
    pub fn expire_time(&self) -> (seconds: u64)
        ensures
            seconds == self@.expire_time,
    {
        self.expire_time
    }

    /// The address the transport binds to.
    pub fn bind(&self) -> (address: &str)
        ensures
            address@ == self@.bind,
    {
        self.bind.as_str()
    }
}

} // verus!
