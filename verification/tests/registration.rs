use webhook_runners::github::runner_registration::{
    authorize, get_runner_registration_token, installation_for, token_request,
    AuthorizationContext, BrokerError, CredentialFlow, Exchange, Installation, RegistrationToken,
};

fn installations() -> Vec<Installation> {
    vec![
        Installation { organization: "acme".to_string(), installation_id: 11 },
        Installation { organization: "globex".to_string(), installation_id: 22 },
        Installation { organization: "acme".to_string(), installation_id: 33 },
    ]
}

#[test]
fn installation_is_the_first_that_serves_the_organization() {
    assert_eq!(installation_for(&installations(), "acme"), Some(11));
    assert_eq!(installation_for(&installations(), "globex"), Some(22));
    assert_eq!(installation_for(&installations(), "Acme"), None);
    assert_eq!(installation_for(&installations(), ""), None);
    assert_eq!(installation_for(&Vec::new(), "acme"), None);
}

#[test]
fn app_flow_asks_as_the_installation_of_the_organization() {
    let flow = CredentialFlow::AppInstallation { installations: installations() };
    assert_eq!(
        authorize(&flow, "globex", "widgets"),
        Ok(AuthorizationContext {
            organization: "globex".to_string(),
            repository: None,
            installation_id: Some(22),
        })
    );
}

#[test]
fn app_flow_fails_for_an_organization_without_installation() {
    let flow = CredentialFlow::AppInstallation { installations: installations() };
    assert_eq!(authorize(&flow, "initech", "widgets"), Err(BrokerError::UnknownOrganization));
    let empty = CredentialFlow::AppInstallation { installations: Vec::new() };
    assert_eq!(authorize(&empty, "acme", "widgets"), Err(BrokerError::UnknownOrganization));
}

#[test]
fn static_flow_asks_for_the_repository() {
    assert_eq!(
        authorize(&CredentialFlow::StaticCredential, "initech", "widgets"),
        Ok(AuthorizationContext {
            organization: "initech".to_string(),
            repository: Some("widgets".to_string()),
            installation_id: None,
        })
    );
}

#[test]
fn token_is_asked_at_the_endpoint_of_the_organization() {
    let context = AuthorizationContext {
        organization: "acme".to_string(),
        repository: None,
        installation_id: Some(11),
    };
    let request = token_request(&context);
    assert_eq!(request.installation_id, Some(11));
    assert_eq!(request.path, "/orgs/acme/actions/runners/registration-token");
}

#[test]
fn token_is_asked_at_the_endpoint_of_the_repository() {
    let context = AuthorizationContext {
        organization: "acme".to_string(),
        repository: Some("widgets".to_string()),
        installation_id: None,
    };
    let request = token_request(&context);
    assert_eq!(request.installation_id, None);
    assert_eq!(request.path, "/repos/acme/widgets/actions/runners/registration-token");
}

#[test]
fn issued_token_is_handed_on() {
    let token = RegistrationToken {
        token: "AABBCC".to_string(),
        expires_at: "2024-01-01T00:00:00Z".to_string(),
    };
    assert!(get_runner_registration_token(Exchange::Issued(token.clone())) == Ok(token));
}

#[test]
fn every_other_exchange_is_a_failure() {
    for exchange in [
        Exchange::Refused { status: 403 },
        Exchange::Refused { status: 500 },
        Exchange::Unreachable,
        Exchange::Malformed,
    ] {
        assert!(get_runner_registration_token(exchange) == Err(BrokerError::ExchangeFailed));
    }
}
