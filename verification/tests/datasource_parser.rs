//! Names of data sources, and the chains of actions that they lead to.

use mssql_tds::connection::connection_actions::{ConnectionAction, Platform};
use mssql_tds::connection::datasource_parser::ParsedDataSource;
use mssql_tds::error::{ErrorKind, TdsResult};

fn computer() -> Option<String> {
    Some("workstation".to_string())
}

fn parse_on_windows(datasource: &str, parallel_connect: bool) -> TdsResult<ParsedDataSource> {
    ParsedDataSource::parse_on(datasource, parallel_connect, Platform::Windows, &computer())
}


#[test]
fn test_tcp_with_port() {
    let parsed = ParsedDataSource::parse("tcp:myserver,1433", false).unwrap();
    assert_eq!(parsed.protocol_name, "tcp");
    assert_eq!(parsed.server_name, "myserver");
    assert_eq!(parsed.protocol_parameter, "1433");
    assert_eq!(parsed.instance_name, "");
    assert_eq!(parsed.alias, "myserver");
    assert!(!parsed.can_use_cache);
}

#[test]
fn test_port_without_protocol_prefix() {
    // When comma with port is specified, should default to TCP
    let parsed = ParsedDataSource::parse("myserver,1433", false).unwrap();
    assert_eq!(parsed.protocol_name, "tcp");
    assert_eq!(parsed.server_name, "myserver");
    assert_eq!(parsed.protocol_parameter, "1433");
    assert_eq!(parsed.instance_name, "");
    assert!(!parsed.can_use_cache);
}

#[test]
fn test_named_instance() {
    let parsed = ParsedDataSource::parse("myserver\\SQLEXPRESS", false).unwrap();
    assert_eq!(parsed.protocol_name, "");
    assert_eq!(parsed.server_name, "myserver");
    assert_eq!(parsed.instance_name, "SQLEXPRESS");
    assert_eq!(parsed.alias, "myserver\\SQLEXPRESS");
    assert!(parsed.can_use_cache);
}

#[test]
fn test_named_pipe_default_instance() {
    let parsed = parse_on_windows("np:\\\\myserver\\pipe\\sql\\query", false).unwrap();
    assert_eq!(parsed.protocol_name, "np");
    assert_eq!(parsed.server_name, "myserver");
    assert_eq!(parsed.instance_name, "");
    assert_eq!(parsed.protocol_parameter, "\\\\myserver\\pipe\\sql\\query");
    assert!(!parsed.can_use_cache);
    assert!(parsed.standard_instance_name);
}

#[test]
fn test_named_pipe_named_instance() {
    let parsed =
        parse_on_windows("\\\\myserver\\pipe\\mssql$inst1\\sql\\query", false).unwrap();
    assert_eq!(parsed.protocol_name, "np");
    assert_eq!(parsed.server_name, "myserver");
    assert_eq!(parsed.instance_name, "inst1");
    assert!(parsed.standard_instance_name);
}

#[test]
fn the_path_of_a_named_instance_is_matched_in_any_case() {
    for (path, instance) in [
        ("\\\\myserver\\pipe\\MSSQL$inst1\\sql\\query", "inst1"),
        ("\\\\myserver\\pipe\\Mssql$Inst1\\SQL\\Query", "Inst1"),
    ] {
        let parsed = parse_on_windows(path, false).unwrap();
        assert_eq!(parsed.protocol_name, "np");
        assert_eq!(parsed.server_name, "myserver");
        assert_eq!(parsed.instance_name, instance);
        assert_eq!(parsed.protocol_parameter, path);
        assert!(parsed.standard_instance_name);
        assert!(!parsed.can_use_cache);
    }
}

#[test]
fn test_named_pipe_non_standard() {
    let parsed =
        parse_on_windows("\\\\myserver\\pipe\\custom\\myapp\\sql", false).unwrap();
    assert_eq!(parsed.protocol_name, "np");
    assert_eq!(parsed.instance_name, "pipecustom\\myapp\\sql");
    assert!(!parsed.standard_instance_name);
}

#[test]
fn test_local_server_resolution() {
    let parsed = ParsedDataSource::parse("(local)\\SQLEXPRESS", false).unwrap();
    assert_eq!(parsed.original_server_name, "(local)");
    assert_eq!(parsed.instance_name, "SQLEXPRESS");
    assert!(parsed.is_local());
}

#[test]
fn test_port_with_instance_port_wins() {
    let parsed = ParsedDataSource::parse("myserver\\INST1,1433", false).unwrap();
    assert_eq!(parsed.protocol_name, "tcp");
    assert_eq!(parsed.protocol_parameter, "1433");
    assert_eq!(parsed.instance_name, ""); // Instance ignored when port specified
}

#[test]
fn test_admin_protocol() {
    let parsed = ParsedDataSource::parse("admin:localhost", false).unwrap();
    assert_eq!(parsed.protocol_name, "admin");
    assert_eq!(parsed.server_name, "localhost");
}

#[test]
fn test_lpc_local_only() {
    // LPC with local server should succeed
    let parsed = parse_on_windows("lpc:.", false).unwrap();
    assert_eq!(parsed.protocol_name, "lpc");

    // LPC with remote server should fail
    let result = parse_on_windows("lpc:remoteserver", false);
    assert!(result.is_err());
}

#[test]
fn test_np_with_localhost() {
    // Named Pipes protocol with localhost explicitly specified
    // Note: server_name is resolved to actual computer name for np protocol
    let parsed = parse_on_windows("np:localhost", false).unwrap();
    assert_eq!(parsed.protocol_name, "np");
    assert_eq!(parsed.original_server_name, "localhost");
    assert!(parsed.is_local_on(&computer()));
    // server_name will be the actual computer name, not "localhost"

    // Named Pipes with dot (local) notation
    let parsed = parse_on_windows("np:.", false).unwrap();
    assert_eq!(parsed.protocol_name, "np");
    assert_eq!(parsed.original_server_name, ".");
    assert!(parsed.is_local_on(&computer()));
    // server_name resolved to computer name

    // Named Pipes with (local) notation
    let parsed = parse_on_windows("np:(local)", false).unwrap();
    assert_eq!(parsed.protocol_name, "np");
    assert_eq!(parsed.original_server_name, "(local)");
    assert!(parsed.is_local_on(&computer()));
    // server_name resolved to computer name
}

#[test]
fn test_lpc_shared_memory_local_variants() {
    // Shared Memory (LPC) with localhost
    // Note: server_name is resolved to actual computer name for lpc protocol
    let parsed = parse_on_windows("lpc:localhost", false).unwrap();
    assert_eq!(parsed.protocol_name, "lpc");
    assert_eq!(parsed.original_server_name, "localhost");
    assert!(parsed.is_local_on(&computer()));
    // server_name will be the actual computer name, not "localhost"

    // Shared Memory with dot notation
    let parsed = parse_on_windows("lpc:.", false).unwrap();
    assert_eq!(parsed.protocol_name, "lpc");
    assert_eq!(parsed.original_server_name, ".");
    assert!(parsed.is_local_on(&computer()));
    // server_name resolved to computer name

    // Shared Memory with (local) notation
    let parsed = parse_on_windows("lpc:(local)", false).unwrap();
    assert_eq!(parsed.protocol_name, "lpc");
    assert_eq!(parsed.original_server_name, "(local)");
    assert!(parsed.is_local_on(&computer()));
    // server_name resolved to computer name

    // Shared Memory with instance name
    let parsed = parse_on_windows("lpc:.\\SQLEXPRESS", false).unwrap();
    assert_eq!(parsed.protocol_name, "lpc");
    assert_eq!(parsed.original_server_name, ".");
    assert_eq!(parsed.instance_name, "SQLEXPRESS");
    assert!(parsed.is_local_on(&computer()));
    // server_name resolved to computer name
}

#[test]
fn test_parallel_connect_restrictions() {
    // Parallel with TCP should work
    let parsed = ParsedDataSource::parse("tcp:myserver,1433", true).unwrap();
    assert_eq!(parsed.protocol_name, "tcp");
    assert!(parsed.parallel_connect);

    // Parallel with NP should fail
    let result = ParsedDataSource::parse("np:\\\\server\\pipe\\sql\\query", true);
    assert!(result.is_err());

    // Parallel with no protocol should default to TCP
    let parsed = ParsedDataSource::parse("myserver", true).unwrap();
    assert_eq!(parsed.protocol_name, "tcp");
}

#[test]
fn test_ipv6_address() {
    // IPv6 address should not be confused with protocol prefix
    let parsed = ParsedDataSource::parse("::1", false).unwrap();
    assert_eq!(parsed.protocol_name, "");
    assert_eq!(parsed.server_name, "::1");
}

#[test]
fn test_reserved_instance_name() {
    // "MSSQLSERVER" is reserved
    let result = ParsedDataSource::parse("myserver\\MSSQLSERVER", false);
    assert!(result.is_err());
}

#[test]
fn test_needs_ssrp() {
    // Named instance without port needs SSRP
    let parsed = ParsedDataSource::parse("myserver\\SQLEXPRESS", false).unwrap();
    assert!(parsed.needs_ssrp());

    // With port, no SSRP needed
    let parsed = ParsedDataSource::parse("myserver,1433", false).unwrap();
    assert!(!parsed.needs_ssrp());

    // No instance, no SSRP needed
    let parsed = ParsedDataSource::parse("myserver", false).unwrap();
    assert!(!parsed.needs_ssrp());
}

#[test]
fn test_localdb_parsing() {
    let parsed = parse_on_windows("(localdb)\\MSSQLLocalDB", false).unwrap();
    assert_eq!(parsed.protocol_name, "localdb");
    assert_eq!(parsed.instance_name, "MSSQLLocalDB");
    assert!(!parsed.can_use_cache);

    // Forward slash also supported
    let parsed = parse_on_windows("(localdb)/v11.0", false).unwrap();
    assert_eq!(parsed.instance_name, "v11.0");

    // Empty instance name should fail
    let result = parse_on_windows("(localdb)\\", false);
    assert!(result.is_err());
}

#[test]
fn test_localdb_not_supported_on_non_windows() {
    // LocalDB should return a clear error on non-Windows platforms
    let result = ParsedDataSource::parse("(localdb)\\MSSQLLocalDB", false);
    assert!(result.is_err());

    let err = result.unwrap_err();
    let err_msg = err.message().to_lowercase();
    assert!(
        err_msg.contains("localdb") && err_msg.contains("not supported"),
        "Error should mention LocalDB is not supported: {}",
        err.message()
    );

    // Forward slash variant should also fail
    let result = ParsedDataSource::parse("(localdb)/v11.0", false);
    assert!(result.is_err());
}

#[test]
fn test_named_pipe_not_supported_on_non_windows() {
    // Named Pipes should return a clear error on non-Windows platforms
    let result = ParsedDataSource::parse("np:myserver", false);
    assert!(result.is_err());

    let err = result.unwrap_err();
    let err_msg = err.message().to_lowercase();
    assert!(
        err_msg.contains("named pipe") && err_msg.contains("not supported"),
        "Error should mention Named Pipes is not supported: {}",
        err.message()
    );

    // Full pipe path should also fail
    let result = ParsedDataSource::parse("np:\\\\myserver\\pipe\\sql\\query", false);
    assert!(result.is_err());
}

#[test]
fn test_shared_memory_not_supported_on_non_windows() {
    // Shared Memory (LPC) should return a clear error on non-Windows platforms
    let result = ParsedDataSource::parse("lpc:.", false);
    assert!(result.is_err());

    let err = result.unwrap_err();
    let err_msg = err.message().to_lowercase();
    assert!(
        err_msg.contains("shared memory") && err_msg.contains("not supported"),
        "Error should mention Shared Memory is not supported: {}",
        err.message()
    );

    // localhost variant should also fail
    let result = ParsedDataSource::parse("lpc:localhost", false);
    assert!(result.is_err());
}

#[test]
fn test_case_insensitivity() {
    let parsed = ParsedDataSource::parse("TCP:MyServer,1433", false).unwrap();
    assert_eq!(parsed.protocol_name, "tcp"); // Normalized to lowercase

    let parsed = ParsedDataSource::parse("MyServer\\SqlExpress", false).unwrap();
    assert_eq!(parsed.instance_name, "SqlExpress"); // Case preserved
}

#[test]
fn test_whitespace_trimming() {
    let parsed = ParsedDataSource::parse("  tcp:myserver , 1433  ", false).unwrap();
    assert_eq!(parsed.protocol_name, "tcp");
    assert_eq!(parsed.server_name, "myserver");
    assert_eq!(parsed.protocol_parameter, "1433");
}

// ========== Action Chain Generation Tests ==========

#[test]
fn test_action_chain_simple_tcp() {
    // Simple TCP with explicit port
    let parsed = ParsedDataSource::parse("tcp:myserver,1433", false).unwrap();
    let chain = parsed.to_connection_actions(15000);

    // Should have single ConnectTcp action
    assert_eq!(chain.len(), 1);
    let actions = chain.actions();
    assert!(matches!(
        actions[0],
        ConnectionAction::ConnectTcp { .. }
    ));

    // Verify description is reasonable
    let desc = chain.describe();
    assert!(desc.contains("myserver"));
    assert!(desc.contains("TCP"));
}

#[test]
fn test_action_chain_named_instance_with_ssrp() {
    // Named instance without port requires SSRP
    let parsed = ParsedDataSource::parse("myserver\\SQLEXPRESS", false).unwrap();
    let chain = parsed.to_connection_actions(15000);

    // Should have: CheckCache -> QuerySsrp -> UpdateCache -> ConnectTcpFromSlot
    assert_eq!(chain.len(), 4);
    let actions = chain.actions();
    assert!(matches!(actions[0], ConnectionAction::CheckCache { .. }));
    assert!(matches!(actions[1], ConnectionAction::QuerySsrp { .. }));
    assert!(matches!(actions[2], ConnectionAction::UpdateCache { .. }));
    assert!(matches!(
        actions[3],
        ConnectionAction::ConnectTcpFromSlot { .. }
    ));

    // Verify metadata
    let metadata = chain.metadata();
    assert_eq!(metadata.server_name, "myserver");
    assert_eq!(metadata.instance_name, "SQLEXPRESS");
    assert!(!metadata.explicit_protocol);
}

#[test]
fn test_action_chain_explicit_protocol_no_cache() {
    // Explicit port disables caching
    let parsed = ParsedDataSource::parse("myserver,1433", false).unwrap();
    let chain = parsed.to_connection_actions(15000);

    // Should have single ConnectTcp action (no cache check)
    assert_eq!(chain.len(), 1);
    let actions = chain.actions();
    assert!(matches!(
        actions[0],
        ConnectionAction::ConnectTcp { .. }
    ));
}

#[test]
fn test_action_chain_named_pipe() {
    // Named pipe with explicit path
    let parsed = parse_on_windows("np:\\\\myserver\\pipe\\sql\\query", false).unwrap();
    let chain = parsed.to_connection_actions_on(15000, Platform::Windows, &computer());

    // Should have single ConnectNamedPipe action
    assert_eq!(chain.len(), 1);
    let actions = chain.actions();
    assert!(matches!(
        actions[0],
        ConnectionAction::ConnectNamedPipe { .. }
    ));

    let metadata = chain.metadata();
    assert!(metadata.explicit_protocol);
}

#[test]
fn test_action_chain_protocol_waterfall() {
    // No explicit protocol - should use waterfall
    let parsed = ParsedDataSource::parse("myserver", false).unwrap();
    let chain = parsed.to_connection_actions(15000);

    // Should have: CheckCache -> TrySequence
    assert_eq!(chain.len(), 2);
    let actions = chain.actions();
    assert!(matches!(actions[0], ConnectionAction::CheckCache { .. }));

    if let ConnectionAction::TrySequence {
        actions: waterfall, ..
    } = &actions[1]
    {
        // Should have TCP at minimum, possibly more on Windows
        assert!(!waterfall.is_empty());

        // At least one should be TCP
        let has_tcp = waterfall
            .iter()
            .any(|a| matches!(a, ConnectionAction::ConnectTcp { .. }));
        assert!(has_tcp, "Waterfall should include TCP");
    } else {
        panic!("Expected TrySequence action for protocol waterfall");
    }
}

#[test]
fn test_action_chain_parallel_connect() {
    // MultiSubnetFailover should use parallel connect
    let parsed = ParsedDataSource::parse("myserver,1433", true).unwrap();
    let chain = parsed.to_connection_actions(15000);

    // Should have TCP connection (parallel logic is in the action)
    assert_eq!(chain.len(), 1);
    assert!(chain.metadata().explicit_protocol);

    let desc = chain.describe();
    assert!(desc.contains("Explicit protocol: true"));
}

#[test]
fn test_action_chain_localdb() {
    // LocalDB should resolve then connect via named pipe
    let parsed = parse_on_windows("(localdb)\\MSSQLLocalDB", false).unwrap();
    let chain = parsed.to_connection_actions_on(15000, Platform::Windows, &computer());

    // Should have: ResolveLocalDb -> ConnectNamedPipeFromSlot
    assert_eq!(chain.len(), 2);
    let actions = chain.actions();
    assert!(matches!(
        actions[0],
        ConnectionAction::ResolveLocalDb { .. }
    ));
    assert!(matches!(
        actions[1],
        ConnectionAction::ConnectNamedPipeFromSlot { .. }
    ));

    let metadata = chain.metadata();
    assert_eq!(metadata.instance_name, "MSSQLLocalDB");
}

#[test]
fn test_action_chain_admin_dac() {
    // Admin protocol should use DAC connection
    let parsed = ParsedDataSource::parse("admin:localhost", false).unwrap();
    let chain = parsed.to_connection_actions(15000);

    // DAC doesn't use cache (SQL Browser doesn't support DAC resolution)
    // Should have single ConnectDac action
    assert_eq!(chain.len(), 1);
    let actions = chain.actions();
    assert!(matches!(actions[0], ConnectionAction::ConnectDac { .. }));
}

#[test]
fn test_action_chain_shared_memory() {
    // LPC protocol should use shared memory
    let parsed = parse_on_windows("lpc:.", false).unwrap();
    let chain = parsed.to_connection_actions_on(15000, Platform::Windows, &computer());

    // LPC with no instance enables caching, so: CheckCache -> ConnectSharedMemory
    assert_eq!(chain.len(), 2);
    let actions = chain.actions();
    assert!(matches!(actions[0], ConnectionAction::CheckCache { .. }));
    assert!(matches!(
        actions[1],
        ConnectionAction::ConnectSharedMemory { .. }
    ));
}

#[test]
fn test_action_chain_timeout_propagation() {
    // Verify timeout is propagated to actions
    let parsed = ParsedDataSource::parse("tcp:myserver,1433", false).unwrap();
    let chain = parsed.to_connection_actions(30000); // 30 second timeout

    assert_eq!(chain.metadata().timeout_ms, 30000);

    // Verify action contains the timeout
    let actions = chain.actions();
    if let ConnectionAction::ConnectTcp {
        timeout_ms,
        ..
    } = &actions[0]
    {
        assert_eq!(*timeout_ms, 30000);
    } else {
        panic!("Expected ConnectTcp action");
    }
}

#[test]
fn refusals_say_why() {
    for (name, text) in [
        ("  ", "Data source string cannot be empty"),
        ("(localdb)\\", "LocalDB instance name cannot be empty"),
        ("\\\\myserver", "Invalid named pipe path - no server specified"),
        ("\\\\\\pipe\\sql\\query", "Invalid named pipe path - blank server"),
        ("\\\\myserver\\other", "Invalid named pipe path: \\\\myserver\\other"),
        ("np:myserver,1433", "Port parameter only valid for TCP protocol, got: np"),
        ("myserver\\MSSQLSERVER", "Instance name 'MSSQLSERVER' is reserved"),
        ("lpc:myserver", "Shared Memory (lpc) protocol requires local server"),
    ] {
        let err = parse_on_windows(name, false).unwrap_err();
        assert_eq!(err.kind(), ErrorKind::Protocol);
        assert_eq!(err.message(), text);
    }
}
