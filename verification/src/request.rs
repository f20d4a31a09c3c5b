//! Construction of single-host SSH ingress authorization requests.

use vstd::prelude::*;
use crate::error::FatalError;

verus! {

/// The port on which SSH access occurs.
pub const SSH_PORT: i64 = 22;

/// The protocol carrying SSH, as a character sequence.
pub open spec fn ssh_protocol() -> Seq<char> {
    seq!['t', 'c', 'p']
}

/// The suffix that narrows a CIDR block to a single address.
pub open spec fn single_host_suffix() -> Seq<char> {
    seq!['/', '3', '2']
}

/// Settles the address that the run admits from what the consensus of the
/// address services gave: without a consensus there is no run.
pub fn get_ip_address(consensus: Option<String>) -> (result: Result<String, FatalError>)
    ensures
        match consensus {
            Some(address) => result is Ok && result->Ok_0@ == address@,
            None => result is Err && result->Err_0 is AddressUnavailable,
        },
{
    match consensus {
        Some(address) => Ok(address),
        None => Err(FatalError::AddressUnavailable),
    }
}

/// One ingress authorization for one rule group.
pub struct AuthorizationRequest {
    pub group_id: String,
    pub ip_protocol: String,
    pub from_port: i64,
    pub to_port: i64,
    pub cidr_ip: String,
    pub description: String,
    pub dry_run: bool,
}

impl AuthorizationRequest {
    /// Whether this is the request that admits `address` to `group` over SSH, with
    /// `description` as its annotation.
    pub open spec fn admits(
        &self,
        group: Seq<char>,
        address: Seq<char>,
        description: Seq<char>,
        dry_run: bool,
    ) -> bool {
        &&& self.group_id@ == group
        &&& self.ip_protocol@ == ssh_protocol()
        &&& self.from_port == SSH_PORT
        &&& self.to_port == SSH_PORT
        &&& self.cidr_ip@ == address + single_host_suffix()
        &&& self.description@ == description
        &&& self.dry_run == dry_run
    }

    /// A request is well formed when it opens exactly TCP port 22 to a single host.
    pub open spec fn well_formed(&self) -> bool {
        &&& self.ip_protocol@ == ssh_protocol()
        &&& self.from_port == SSH_PORT
        &&& self.to_port == SSH_PORT
        &&& self.cidr_ip@.len() >= 3
        &&& self.cidr_ip@.subrange(self.cidr_ip@.len() - 3, self.cidr_ip@.len() as int)
            == single_host_suffix()
    }
}

/// Builds the request that admits `ip_address` to `security_group_id` over SSH.
pub fn create_auth_request(
    security_group_id: &str,
    ip_address: &str,
    description: &str,
    dry_run: bool,
) -> (req: AuthorizationRequest)
    ensures
        req.group_id@ == security_group_id@,
        req.ip_protocol@ == ssh_protocol(),
        req.from_port == SSH_PORT,
        req.to_port == SSH_PORT,
        req.cidr_ip@ == ip_address@ + single_host_suffix(),
        req.description@ == description@,
        req.dry_run == dry_run,
        req.admits(security_group_id@, ip_address@, description@, dry_run),
        req.well_formed(),
{
    proof {
        reveal_strlit("tcp");
        reveal_strlit("/32");
    }
    let mut cidr_ip = ip_address.to_string();
    cidr_ip.append("/32");
    let ip_protocol = "tcp".to_string();
    assert(ip_protocol@ =~= ssh_protocol());
    assert(cidr_ip@ =~= ip_address@ + single_host_suffix());
    assert(cidr_ip@.subrange(cidr_ip@.len() - 3, cidr_ip@.len() as int) =~= single_host_suffix());
    AuthorizationRequest {
        group_id: security_group_id.to_string(),
        ip_protocol,
        from_port: SSH_PORT,
        to_port: SSH_PORT,
        cidr_ip,
        description: description.to_string(),
        dry_run,
    }
}

/// A request that admits an address to a group is well formed.
pub proof fn lemma_admitting_request_is_well_formed(
    request: AuthorizationRequest,
    group: Seq<char>,
    address: Seq<char>,
    description: Seq<char>,
    dry_run: bool,
)
    requires
        request.admits(group, address, description, dry_run),
    ensures
        request.well_formed(),
{
    let cidr = address + single_host_suffix();
    assert(cidr.subrange(cidr.len() - 3, cidr.len() as int) =~= single_host_suffix());
}

} // verus!
