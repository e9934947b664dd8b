use crate::text::{same_str, text_of};
use vstd::prelude::*;
use vstd::string::*;

verus! {

/// The installation of the app that serves one organization.
#[derive(Clone, Debug, PartialEq, Eq)]
pub struct Installation {
    pub organization: String,
    pub installation_id: u64,
}

/// How this deployment obtains registration tokens. A deployment has exactly
/// one flow.
#[derive(Clone, Debug, PartialEq, Eq)]
pub enum CredentialFlow {
    /// As an installed app: each organization has an installation of its own.
    AppInstallation { installations: Vec<Installation> },
    /// With one long-lived credential, for one repository at a time.
    StaticCredential,
}

/// For whom a token is asked: the organization, the repository where the
/// token is for one repository only, and the installation to ask as.
#[derive(Clone, Debug, PartialEq, Eq)]
pub struct AuthorizationContext {
    pub organization: String,
    pub repository: Option<String>,
    pub installation_id: Option<u64>,
}

/// The call that yields a registration token: the endpoint to post to, and
/// the installation to post as, if any.
#[derive(Clone, Debug, PartialEq, Eq)]
pub struct TokenRequest {
    pub installation_id: Option<u64>,
    pub path: String,
}

/// A credential with which one new runner can register itself.
#[derive(Clone, PartialEq, Eq)]
pub struct RegistrationToken {
    pub token: String,
    pub expires_at: String,
}

/// What came of asking the identity provider for a token.
#[derive(Clone, PartialEq, Eq)]
pub enum Exchange {
    /// It answered with a token.
    Issued(RegistrationToken),
    /// It answered with a status that is no success.
    Refused { status: u16 },
    /// No answer arrived.
    Unreachable,
    /// The answer could not be read as a token.
    Malformed,
}

/// Why no registration token can be had.
#[derive(Clone, Copy, Debug, PartialEq, Eq, Structural)]
pub enum BrokerError {
    /// The configuration maps the organization to no installation.
    UnknownOrganization,
    /// The exchange with the identity provider failed.
    ExchangeFailed,
}

/// The model of an `AuthorizationContext`.
pub struct AuthorizationContextView {
    pub organization: Seq<char>,
    pub repository: Option<Seq<char>>,
    pub installation_id: Option<u64>,
}

/// The model of a `TokenRequest`.
pub struct TokenRequestView {
    pub installation_id: Option<u64>,
    pub path: Seq<char>,
}

/// The model of a `RegistrationToken`.
pub struct RegistrationTokenView {
    pub token: Seq<char>,
    pub expires_at: Seq<char>,
}

/// The model of a `CredentialFlow`.
pub enum CredentialFlowView {
    AppInstallation { installations: Seq<(Seq<char>, u64)> },
    StaticCredential,
}

/// The model of an `Exchange`.
pub enum ExchangeView {
    Issued(RegistrationTokenView),
    Refused { status: u16 },
    Unreachable,
    Malformed,
}

impl View for Installation {
    type V = (Seq<char>, u64);

    open spec fn view(&self) -> Self::V {
        (self.organization@, self.installation_id)
    }
}

/// The pairs of organization and installation that `v` holds.
pub open spec fn installations_of(v: Seq<Installation>) -> Seq<(Seq<char>, u64)> {
    Seq::new(v.len(), |i: int| v[i]@)
}

impl View for CredentialFlow {
    type V = CredentialFlowView;

    open spec fn view(&self) -> Self::V {
        match *self {
            CredentialFlow::AppInstallation { installations } => CredentialFlowView::AppInstallation {
                installations: installations_of(installations@),
            },
            CredentialFlow::StaticCredential => CredentialFlowView::StaticCredential,
        }
    }
}

impl View for AuthorizationContext {
    type V = AuthorizationContextView;

    open spec fn view(&self) -> Self::V {
        AuthorizationContextView {
            organization: self.organization@,
            repository: text_of(self.repository),
            installation_id: self.installation_id,
        }
    }
}

impl View for TokenRequest {
    type V = TokenRequestView;

    open spec fn view(&self) -> Self::V {
        TokenRequestView { installation_id: self.installation_id, path: self.path@ }
    }
}

impl View for RegistrationToken {
    type V = RegistrationTokenView;

    open spec fn view(&self) -> Self::V {
        RegistrationTokenView { token: self.token@, expires_at: self.expires_at@ }
    }
}

impl View for Exchange {
    type V = ExchangeView;

    open spec fn view(&self) -> Self::V {
        match *self {
            Exchange::Issued(token) => ExchangeView::Issued(token@),
            Exchange::Refused { status } => ExchangeView::Refused { status },
            Exchange::Unreachable => ExchangeView::Unreachable,
            Exchange::Malformed => ExchangeView::Malformed,
        }
    }
}

/// The installation that the first entry for `organization` names.
pub open spec fn installation_of(
    installations: Seq<(Seq<char>, u64)>,
    organization: Seq<char>,
) -> Option<u64>
    decreases installations.len(),
{
    if installations.len() == 0 {
        None
    } else if installations[0].0 == organization {
        Some(installations[0].1)
    } else {
        installation_of(installations.skip(1), organization)
    }
}

/// For whom to ask, under each flow. The app flow asks for the organization
/// as its installation, and fails for an organization without one. The
/// static flow asks for the one repository.
pub open spec fn context_for(
    flow: CredentialFlowView,
    organization: Seq<char>,
    repository: Seq<char>,
) -> Result<AuthorizationContextView, BrokerError> {
    match flow {
        CredentialFlowView::AppInstallation { installations } => match installation_of(
            installations,
            organization,
        ) {
            Some(id) => Ok(
                AuthorizationContextView {
                    organization,
                    repository: None,
                    installation_id: Some(id),
                },
            ),
            None => Err(BrokerError::UnknownOrganization),
        },
        CredentialFlowView::StaticCredential => Ok(
            AuthorizationContextView {
                organization,
                repository: Some(repository),
                installation_id: None,
            },
        ),
    }
}

/// The endpoint that creates a registration token: that of the repository
/// where the context names one, else that of the organization.
pub open spec fn registration_path(context: AuthorizationContextView) -> Seq<char> {
    match context.repository {
        Some(repository) => "/repos/"@ + context.organization + "/"@ + repository
            + "/actions/runners/registration-token"@,
        None => "/orgs/"@ + context.organization + "/actions/runners/registration-token"@,
    }
}

/// The call that a context asks for.
pub open spec fn request_for(context: AuthorizationContextView) -> TokenRequestView {
    TokenRequestView {
        installation_id: context.installation_id,
        path: registration_path(context),
    }
}

/// What an exchange yields: its token, or a failure for every other outcome.
pub open spec fn token_of(exchange: ExchangeView) -> Result<RegistrationTokenView, BrokerError> {
    match exchange {
        ExchangeView::Issued(token) => Ok(token),
        _ => Err(BrokerError::ExchangeFailed),
    }
}

/// Looks up the installation that serves `organization`.
pub fn installation_for(installations: &Vec<Installation>, organization: &str) -> (r: Option<u64>)
    ensures
        r == installation_of(installations_of(installations@), organization@),
{
    let n = installations.len();
    let ghost all = installations_of(installations@);
    let mut i: usize = 0;
    assert(all.skip(0) =~= all);
    while i < n
        invariant
            n == installations@.len(),
            i <= n,
            all == installations_of(installations@),
            installation_of(all, organization@) == installation_of(
                all.skip(i as int),
                organization@,
            ),
        decreases n - i,
    {
        proof {
            assert(all.skip(i as int)[0] == installations@[i as int]@);
            assert(all.skip(i as int).skip(1) =~= all.skip(i + 1));
        }
        if same_str(installations[i].organization.as_str(), organization) {
            return Some(installations[i].installation_id);
        }
        i += 1;
    }
    None
}

/// Decides for whom a token is asked, from the deployment's flow and the
/// job's organization and repository.
pub fn authorize(flow: &CredentialFlow, organization: &str, repository: &str) -> (r: Result<
    AuthorizationContext,
    BrokerError,
>)
    ensures
        match r {
            Ok(context) => context_for(flow@, organization@, repository@) == Ok::<
                AuthorizationContextView,
                BrokerError,
            >(context@),
            Err(e) => context_for(flow@, organization@, repository@) == Err::<
                AuthorizationContextView,
                BrokerError,
            >(e),
        },
{
    match flow {
        CredentialFlow::AppInstallation { installations } => {
            match installation_for(installations, organization) {
                Some(id) => Ok(
                    AuthorizationContext {
                        organization: organization.to_owned(),
                        repository: None,
                        installation_id: Some(id),
                    },
                ),
                None => Err(BrokerError::UnknownOrganization),
            }
        },
        CredentialFlow::StaticCredential => Ok(
            AuthorizationContext {
                organization: organization.to_owned(),
                repository: Some(repository.to_owned()),
                installation_id: None,
            },
        ),
    }
}

/// The call to make for a context.
pub fn token_request(context: &AuthorizationContext) -> (r: TokenRequest)
    ensures
        r@ == request_for(context@),
{
    let mut path = String::new();
    match &context.repository {
        Some(repository) => {
            path.append("/repos/");
            path.append(context.organization.as_str());
            path.append("/");
            path.append(repository.as_str());
        },
        None => {
            path.append("/orgs/");
            path.append(context.organization.as_str());
        },
    }
    path.append("/actions/runners/registration-token");
    assert(path@ =~= registration_path(context@));
    TokenRequest { installation_id: context.installation_id, path }
}

/// Takes the registration token out of an exchange. An exchange that was
/// refused, that never arrived or that could not be read is a failure.
pub fn get_runner_registration_token(exchange: Exchange) -> (r: Result<
    RegistrationToken,
    BrokerError,
>)
    ensures
        match r {
            Ok(token) => token_of(exchange@) == Ok::<RegistrationTokenView, BrokerError>(token@),
            Err(e) => token_of(exchange@) == Err::<RegistrationTokenView, BrokerError>(e),
        },
        exchange matches Exchange::Issued(token) ==> r == Ok::<RegistrationToken, BrokerError>(
            token,
        ),
{
    match exchange {
        Exchange::Issued(token) => Ok(token),
        _ => Err(BrokerError::ExchangeFailed),
    }
}

} // verus!
