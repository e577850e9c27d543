//! The receiving side's configuration.

use vstd::prelude::*;

pub use crate::utils::PcNumberError;

verus! {

/// The addresses of the benchmark machines and which of them are the local
/// and the distant one (numbered from 1 to 4).
pub struct Config {
    pub num_local: u16,
    pub num_dist: u16,
    pub ip1: String,
    pub ip2: String,
    pub ip3: String,
    pub ip4: String,
    pub tcp_port: u16,
}

/// The configuration file's content: a `config` table.
pub struct Data {
    config: Config,
}

impl Data {
    pub fn new(config: Config) -> (d: Data)
        ensures
            d.spec_config() == config,
    {
        Data { config }
    }

    pub closed spec fn spec_config(self) -> Config {
        self.config
    }

    /// The configuration that the file holds.
    pub fn into_config(self) -> (c: Config)
        ensures
            c == self.spec_config(),
    {
        self.config
    }
}

impl Config {
    /// The address that machine number `n` has, if `n` is 1 to 4.
    pub open spec fn spec_address(self, n: u16) -> Option<String> {
        if n == 1 {
            Some(self.ip1)
        } else if n == 2 {
            Some(self.ip2)
        } else if n == 3 {
            Some(self.ip3)
        } else if n == 4 {
            Some(self.ip4)
        } else {
            None
        }
    }

    /// The address of machine number `n`: 1 to 4 name `ip1` to `ip4`, 0 means
    /// the number was not set, anything else is not recognised.
    pub fn address_of(&self, n: u16) -> (r: Result<&String, PcNumberError>)
        ensures
            r is Ok <==> 1 <= n <= 4,
            r matches Ok(a) ==> Some(*a) == self.spec_address(n),
            n == 1 ==> (r matches Ok(a) && *a == self.ip1),
            n == 2 ==> (r matches Ok(a) && *a == self.ip2),
            n == 3 ==> (r matches Ok(a) && *a == self.ip3),
            n == 4 ==> (r matches Ok(a) && *a == self.ip4),
            r matches Err(e) ==> (n == 0 ==> e == PcNumberError::NotSet) && (n > 4 ==> e
                == PcNumberError::Unrecognized(n)),
    {
        if n == 1 {
            Ok(&self.ip1)
        } else if n == 2 {
            Ok(&self.ip2)
        } else if n == 3 {
            Ok(&self.ip3)
        } else if n == 4 {
            Ok(&self.ip4)
        } else if n == 0 {
            Err(PcNumberError::NotSet)
        } else {
            Err(PcNumberError::Unrecognized(n))
        }
    }

    /// The distant machine's address.
    pub fn dist_address(&self) -> (r: Result<&String, PcNumberError>)
        ensures
            r is Ok <==> 1 <= self.num_dist <= 4,
            r matches Ok(a) ==> Some(*a) == self.spec_address(self.num_dist),
            self.num_dist == 1 ==> (r matches Ok(a) && *a == self.ip1),
            self.num_dist == 2 ==> (r matches Ok(a) && *a == self.ip2),
            self.num_dist == 3 ==> (r matches Ok(a) && *a == self.ip3),
            self.num_dist == 4 ==> (r matches Ok(a) && *a == self.ip4),
            r matches Err(e) ==> (self.num_dist == 0 ==> e == PcNumberError::NotSet) && (
            self.num_dist > 4 ==> e == PcNumberError::Unrecognized(self.num_dist)),
    {
        self.address_of(self.num_dist)
    }

    /// The local machine's address.
    pub fn local_address(&self) -> (r: Result<&String, PcNumberError>)
        ensures
            r is Ok <==> 1 <= self.num_local <= 4,
            r matches Ok(a) ==> Some(*a) == self.spec_address(self.num_local),
            self.num_local == 1 ==> (r matches Ok(a) && *a == self.ip1),
            self.num_local == 2 ==> (r matches Ok(a) && *a == self.ip2),
            self.num_local == 3 ==> (r matches Ok(a) && *a == self.ip3),
            self.num_local == 4 ==> (r matches Ok(a) && *a == self.ip4),
            r matches Err(e) ==> (self.num_local == 0 ==> e == PcNumberError::NotSet) && (
            self.num_local > 4 ==> e == PcNumberError::Unrecognized(self.num_local)),
    {
        self.address_of(self.num_local)
    }
}

/// Machine number `n` from 1 to 4 names the `n`-th address of the
/// configuration, and no other number names one.
pub proof fn lemma_machine_numbers(c: Config, n: u16)
    ensures
        c.spec_address(1) == Some(c.ip1),
        c.spec_address(2) == Some(c.ip2),
        c.spec_address(3) == Some(c.ip3),
        c.spec_address(4) == Some(c.ip4),
        c.spec_address(n) is Some <==> 1 <= n <= 4,
{
}

} // verus!
