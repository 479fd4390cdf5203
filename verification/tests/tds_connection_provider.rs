//! From the name of a data source to a connection.

use mssql_tds::connection::client_context::ClientContext;
use mssql_tds::connection::connection_actions::{ConnectionAction, Platform, TransportContext};
use mssql_tds::connection_provider::tds_connection_provider::{
    ChainStart, ConnectOutcome, ConnectStep, Connecting, TdsConnectionProvider,
};
use mssql_tds::error::{Error, ErrorKind};
use mssql_tds::settings::{EncryptionSetting, IPAddressPreference};

fn context() -> ClientContext {
    ClientContext {
        user_name: "user".to_string(),
        password: "SECRET-REDACTED".to_string(),
        connect_timeout: 30,
        multi_subnet_failover: false,
        failover_partner: String::new(),
        encryption: EncryptionSetting::On,
        ipaddress_preference: IPAddressPreference::UsePlatformDefault,
        keep_alive_in_ms: 30_000,
        keep_alive_interval_in_ms: 1_000,
    }
}

fn start(datasource: &str, platform: Platform) -> Result<ChainStart, Error> {
    let provider = TdsConnectionProvider::new();
    let chain = provider.create_client_on(&context(), datasource, Ok(()), platform, &None)?;
    provider.execute_action_chain(&context(), &chain, platform)
}

fn connecting(datasource: &str, platform: Platform) -> Connecting {
    match start(datasource, platform) {
        Ok(ChainStart::Connect(c)) => c,
        _ => panic!("Expected ways to connect"),
    }
}

fn redirection() -> ConnectOutcome {
    ConnectOutcome::Failed(Error::Redirection { host: "other".to_string(), port: 11000 })
}

#[test]
fn timeouts_reach_the_actions() {
    let provider = TdsConnectionProvider::default();
    let mut c = context();
    let chain = provider.create_client(&c, "tcp:myserver,1433", Ok(())).unwrap();
    assert_eq!(chain.metadata().timeout_ms, 30_000);
    c.connect_timeout = 0;
    let chain = provider.create_client(&c, "tcp:myserver,1433", Ok(())).unwrap();
    assert_eq!(chain.metadata().timeout_ms, 15_000);
    assert!(matches!(
        chain.actions()[0],
        ConnectionAction::ConnectTcp { port: 1433, timeout_ms: 15_000, .. }
    ));
}

#[test]
fn several_subnets_do_not_go_with_mirroring() {
    let provider = TdsConnectionProvider::new();
    let mut c = context();
    c.multi_subnet_failover = true;
    assert!(provider.create_client(&c, "tcp:myserver,1433", Ok(())).is_ok());
    c.failover_partner = "mirror".to_string();
    let err = provider.create_client(&c, "tcp:myserver,1433", Ok(())).unwrap_err();
    assert_eq!(err.kind(), ErrorKind::Usage);
    // What is wrong with the name comes first, then what is wrong with the context
    let invalid = || Err(Error::ImplementationError("invalid".to_string()));
    let err = provider.create_client(&c, "tcp:myserver,1433", invalid()).unwrap_err();
    assert_eq!(err.kind(), ErrorKind::ImplementationError);
    let err = provider.create_client(&c, "np:myserver", invalid()).unwrap_err();
    assert_eq!(err.kind(), ErrorKind::Protocol);
}

#[test]
fn an_instance_without_a_port_is_not_found() {
    let err = match start("myserver\\SQLEXPRESS", Platform::Other) {
        Err(e) => e,
        Ok(_) => panic!("Expected an error"),
    };
    assert_eq!(err.kind(), ErrorKind::Protocol);
}

#[test]
fn localdb_is_resolved_first() {
    match start("(localdb)\\MSSQLLocalDB", Platform::Windows) {
        Ok(ChainStart::ResolveLocalDb { instance_name }) => {
            assert_eq!(instance_name, "MSSQLLocalDB");
        }
        _ => panic!("Expected a LocalDB instance"),
    }
    let (c, ways) =
        TdsConnectionProvider::new().localdb_resolved(context(), "\\\\.\\pipe\\x".to_string());
    assert_eq!(c.encryption, EncryptionSetting::PreferOff);
    assert_eq!(c.user_name, "user");
    assert_eq!(
        ways.attempt(false),
        Ok(&TransportContext::NamedPipe { pipe_name: "\\\\.\\pipe\\x".to_string() })
    );
}

#[test]
fn a_container_gives_its_password() {
    let provider = TdsConnectionProvider::new();
    let secret = "SECRET-REDACTED".to_string();
    let mut c = context();
    c.user_name = String::new();
    c.password = String::new();
    let (c, ways) = provider.container_started(c, "127.0.0.1".to_string(), 50000, secret.clone());
    assert_eq!(c.user_name, "sa");
    assert_eq!(c.password, secret);
    assert_eq!(
        ways.attempt(false),
        Ok(&TransportContext::Tcp {
            host: "127.0.0.1".to_string(),
            port: 50000,
            instance_name: None,
        })
    );
    let mut c = context();
    c.user_name = "sa".to_string();
    c.password = String::new();
    let (c, _) = provider.container_started(c, "h".to_string(), 1, secret.clone());
    assert_eq!(c.password, secret);
    let mut c = context();
    c.user_name = "sa".to_string();
    c.password = "own".to_string();
    let (c, _) = provider.container_started(c, "h".to_string(), 1, secret);
    assert_eq!(c.password, "own");
}

#[test]
fn the_container_stands_in_for_localdb() {
    assert!(matches!(
        start("(localdb)\\MSSQLLocalDB", Platform::OtherWithLocalDb),
        Ok(ChainStart::StartContainer)
    ));
}

#[test]
fn a_connection_is_made() {
    let mut c = connecting("tcp:myserver,1433", Platform::Other);
    assert_eq!(c.timeout_sec(), Some(30));
    assert_eq!(
        c.attempt(false),
        Ok(&TransportContext::Tcp {
            host: "myserver".to_string(),
            port: 1433,
            instance_name: None,
        })
    );
    assert!(matches!(c.outcome(ConnectOutcome::Connected), Ok(ConnectStep::Connected)));
}

#[test]
fn a_cancelled_login_is_not_tried() {
    let c = connecting("tcp:myserver,1433", Platform::Other);
    assert_eq!(c.attempt(true).unwrap_err().kind(), ErrorKind::OperationCancelled);
}

#[test]
fn the_ways_are_tried_in_turn() {
    // Without a protocol, TCP comes before the named pipe
    let mut c = connecting("myserver", Platform::Windows);
    assert!(matches!(c.attempt(false), Ok(TransportContext::Tcp { .. })));
    assert!(matches!(c.outcome(ConnectOutcome::TimedOut), Ok(ConnectStep::NextContext)));
    assert!(matches!(c.attempt(false), Ok(TransportContext::NamedPipe { .. })));
    let refused = Error::ConnectionClosed("refused".to_string());
    let err = c.outcome(ConnectOutcome::Failed(refused.clone())).unwrap_err();
    assert_eq!(err, refused);
}

#[test]
fn the_last_timeout_is_reported() {
    let mut c = connecting("tcp:myserver,1433", Platform::Other);
    let err = c.outcome(ConnectOutcome::TimedOut).unwrap_err();
    assert_eq!(err.kind(), ErrorKind::Timeout);
    assert_eq!(err.message(), "Timeout while connecting");
}

#[test]
fn redirections_are_followed_ten_times() {
    let mut c = connecting("tcp:myserver,1433", Platform::Other);
    for _ in 0..10 {
        match c.outcome(redirection()) {
            Ok(ConnectStep::Redirect(t)) => assert_eq!(
                t,
                TransportContext::Tcp {
                    host: "other".to_string(),
                    port: 11000,
                    instance_name: None,
                }
            ),
            _ => panic!("Expected a redirection"),
        }
    }
    let err = c.outcome(redirection()).unwrap_err();
    assert_eq!(err.kind(), ErrorKind::Protocol);
}
