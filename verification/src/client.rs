//! The client-side surface: which route a report takes. The transport that
//! carries the request lives outside the library; what is verified here is
//! the address it goes to.
use vstd::prelude::*;

use crate::model::Role;

verus! {

/// Which side of an agreement the client reports as; decides the route
/// prefix.
#[derive(Clone, Copy, Debug, PartialEq, Eq, Structural)]
pub enum AgreementRole {
    Provider,
    Requestor,
}

impl AgreementRole {
    /// The route prefix of this role.
    pub open spec fn path(self) -> Seq<char> {
        match self {
            AgreementRole::Provider => "/provider"@,
            AgreementRole::Requestor => "/requestor"@,
        }
    }

    /// The route prefix of this role.
    pub fn as_path(&self) -> (r: &str)
        ensures
            r@ == self.path(),
    {
        match self {
            AgreementRole::Provider => "/provider",
            AgreementRole::Requestor => "/requestor",
        }
    }

    /// The storage-side role this client role addresses.
    pub open spec fn storage_role(self) -> Role {
        match self {
            AgreementRole::Provider => Role::Provider,
            AgreementRole::Requestor => Role::Requestor,
        }
    }

    /// The storage-side role this client role addresses.
    pub fn role(&self) -> (r: Role)
        ensures
            r == self.storage_role(),
    {
        match self {
            AgreementRole::Provider => Role::Provider,
            AgreementRole::Requestor => Role::Requestor,
        }
    }
}

/// The URL of the detail-registration route for one agreement.
pub open spec fn spec_agreement_url(
    base: Seq<char>,
    role: AgreementRole,
    node: Seq<char>,
    agreement: Seq<char>,
) -> Seq<char> {
    base + role.path() + "/"@ + node + "/agreement/"@ + agreement
}

/// The URL of the status-report route for one agreement.
pub open spec fn spec_report_url(
    base: Seq<char>,
    role: AgreementRole,
    node: Seq<char>,
    agreement: Seq<char>,
) -> Seq<char> {
    spec_agreement_url(base, role, node, agreement) + "/status"@
}

/// Builds the URL a detail registration is posted to.
pub fn agreement_url(base_url: &str, role: AgreementRole, node_id: &str, agreement_id: &str) -> (r:
    String)
    ensures
        r@ == spec_agreement_url(base_url@, role, node_id@, agreement_id@),
{
    let mut out = String::new();
    out.append(base_url);
    out.append(role.as_path());
    out.append("/");
    out.append(node_id);
    out.append("/agreement/");
    out.append(agreement_id);
    proof {
        assert(out@ =~= spec_agreement_url(base_url@, role, node_id@, agreement_id@));
    }
    out
}

/// Builds the URL a status report is posted to.
pub fn report_url(base_url: &str, role: AgreementRole, node_id: &str, agreement_id: &str) -> (r:
    String)
    ensures
        r@ == spec_report_url(base_url@, role, node_id@, agreement_id@),
{
    let mut out = agreement_url(base_url, role, node_id, agreement_id);
    out.append("/status");
    proof {
        assert(out@ =~= spec_report_url(base_url@, role, node_id@, agreement_id@));
    }
    out
}

} // verus!
