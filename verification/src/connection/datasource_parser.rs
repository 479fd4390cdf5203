//! Reading the name of a data source, such as `tcp:server,1433` or `server\instance`.

use crate::connection::connection_actions::{
    default_pipe, default_pipe_path, optional, waterfall, ActionView, ConnectionActionChain,
    ConnectionActionChainBuilder, ConnectionMetadata, Platform, ResultSlot, StepView, DEFAULT_PORT,
};
use crate::error::{Error, ErrorKind, TdsResult};
use crate::strings::{
    ascii_lower, before, count_char, eq_ignore_ascii_case, find_char, from, lowercased, number_of,
    occurrences, parse_u16, position, same, same_but_case, starts, starts_with, to_lowercase,
    trim_end, trim_end_char, trim_start, without_end,
};
use crate::text::{is_white_space, text_message, trim, trimmed, trimmed_end, trimmed_start};
use vstd::prelude::*;
use vstd::string::{StrSliceExecFns, StringExecFns};
use vstd::utf8::is_ascii_chars;

verus! {

/// The parts of a data source's name.
#[derive(Clone, Debug, PartialEq, Eq)]
pub struct ParsedDataSource {
    pub protocol_name: String,
    pub server_name: String,
    pub original_server_name: String,
    pub instance_name: String,
    pub protocol_parameter: String,
    pub alias: String,
    pub can_use_cache: bool,
    pub standard_instance_name: bool,
    pub parallel_connect: bool,
}

/// The parts of a data source's name, as characters.
#[verifier::ext_equal]
pub struct DataSourceView {
    pub protocol_name: Seq<char>,
    pub server_name: Seq<char>,
    pub original_server_name: Seq<char>,
    pub instance_name: Seq<char>,
    pub protocol_parameter: Seq<char>,
    pub alias: Seq<char>,
    pub can_use_cache: bool,
    pub standard_instance_name: bool,
    pub parallel_connect: bool,
}

impl View for ParsedDataSource {
    type V = DataSourceView;

    open spec fn view(&self) -> DataSourceView {
        DataSourceView {
            protocol_name: self.protocol_name@,
            server_name: self.server_name@,
            original_server_name: self.original_server_name@,
            instance_name: self.instance_name@,
            protocol_parameter: self.protocol_parameter@,
            alias: self.alias@,
            can_use_cache: self.can_use_cache,
            standard_instance_name: self.standard_instance_name,
            parallel_connect: self.parallel_connect,
        }
    }
}

/// The protocols that a server can be reached by.
#[derive(Clone, Copy, Debug, PartialEq, Eq, Structural)]
pub enum ProtocolType {
    Tcp,
    NamedPipe,
    SharedMemory,
    Admin,
    Auto,
}

/// A data source of which nothing is known yet.
pub open spec fn blank(parallel_connect: bool) -> DataSourceView {
    DataSourceView {
        protocol_name: Seq::empty(),
        server_name: Seq::empty(),
        original_server_name: Seq::empty(),
        instance_name: Seq::empty(),
        protocol_parameter: Seq::empty(),
        alias: Seq::empty(),
        can_use_cache: true,
        standard_instance_name: true,
        parallel_connect,
    }
}

/// Whether a text names a protocol that can stand before a server.
pub open spec fn is_protocol(s: Seq<char>) -> bool {
    s == "tcp"@ || s == "np"@ || s == "lpc"@ || s == "admin"@
}

/// The protocol that stands before a server, and what follows it: in lower case, and as it was
/// given. More than one colon belong to an address.
pub open spec fn protocol_split(o: Seq<char>, n: Seq<char>) -> Option<
    (Seq<char>, Seq<char>, Seq<char>),
> {
    match (position(n, ':'), position(o, ':')) {
        (Some(i), Some(j)) => if occurrences(n, ':') <= 1 && i > 0 && is_protocol(
            trimmed(n.take(i)),
        ) {
            Some((trimmed(n.take(i)), trimmed_start(n.skip(i + 1)), trimmed_start(o.skip(j + 1))))
        } else {
            None
        },
        _ => None,
    }
}

/// The server in the path of a named pipe, and what follows it; the path starts with two
/// backslashes. Where there is no server, what people are told.
pub open spec fn pipe_split(path: Seq<char>) -> Result<(Seq<char>, Seq<char>), Seq<char>> {
    if !starts(path, "\\\\"@) {
        Err("Invalid named pipe path"@)
    } else {
        let rest = path.skip(2);
        match position(rest, '\\') {
            Some(i) => if i == 0 {
                Err("Invalid named pipe path - blank server"@)
            } else {
                Ok((rest.take(i), rest.skip(i)))
            },
            None => Err("Invalid named pipe path - no server specified"@),
        }
    }
}

/// The instance that the end of a named pipe's path names, and whether it names it in the usual way:
/// by `MSSQL$` before it, in any letter case.
pub open spec fn pipe_instance(pipe: Seq<char>) -> Option<(Seq<char>, bool)> {
    if pipe == "\\pipe\\sql\\query"@ {
        Some((Seq::empty(), true))
    } else if pipe.len() >= 22 && same_but_case(pipe.take(12), "\\pipe\\mssql$"@) && same_but_case(
        pipe.skip(pipe.len() - 10),
        "\\sql\\query"@,
    ) {
        Some((pipe.subrange(12, pipe.len() - 10), true))
    } else if starts(pipe, "\\pipe\\"@) {
        Some(("pipe"@ + pipe.skip(6), false))
    } else {
        None
    }
}

/// A data source that is a named pipe; what people are told where it is none.
pub open spec fn pipe_source(
    path: Seq<char>,
    r: DataSourceView,
    platform: Platform,
    computer: Option<Seq<char>>,
) -> Result<DataSourceView, Seq<char>> {
    match pipe_split(path) {
        Err(t) => Err(t),
        Ok((server, pipe)) => match pipe_instance(pipe) {
            None => Err("Invalid named pipe path: "@ + path),
            Some((instance, standard)) => validated(
                DataSourceView {
                    protocol_parameter: path,
                    protocol_name: "np"@,
                    original_server_name: server,
                    server_name: if server == "."@ {
                        "localhost"@
                    } else {
                        server
                    },
                    instance_name: instance,
                    standard_instance_name: standard,
                    can_use_cache: false,
                    ..r
                },
                platform,
                computer,
            ),
        },
    }
}

/// What a data source becomes by the parameter behind a comma, and what stands before the comma, in
/// lower case and as it was given. A parameter makes the protocol TCP; what people are told where it
/// is another.
pub open spec fn with_parameter(r: DataSourceView, o: Seq<char>, n: Seq<char>) -> Result<
    (DataSourceView, Seq<char>, Seq<char>),
    Seq<char>,
> {
    match (position(n, ','), position(o, ',')) {
        (Some(i), Some(j)) => {
            let parameter = trimmed(o.skip(j + 1));
            let port = match position(parameter, '\\') {
                Some(k) => parameter.take(k),
                None => parameter,
            };
            if r.protocol_name.len() > 0 && r.protocol_name != "tcp"@ {
                Err("Port parameter only valid for TCP protocol, got: "@ + r.protocol_name)
            } else {
                Ok(
                    (
                        DataSourceView {
                            protocol_name: "tcp"@,
                            protocol_parameter: port,
                            can_use_cache: false,
                            ..r
                        },
                        trimmed_end(n.take(i)),
                        trimmed_end(o.take(j)),
                    ),
                )
            }
        },
        _ => Ok((r, n, o)),
    }
}

/// What a data source becomes by the instance behind a backslash, and what stands before it. An
/// instance does not count beside a parameter; what people are told of the reserved name.
pub open spec fn with_instance(r: DataSourceView, o: Seq<char>, n: Seq<char>) -> Result<
    (DataSourceView, Seq<char>, Seq<char>),
    Seq<char>,
> {
    match (position(n, '\\'), position(o, '\\')) {
        (Some(i), Some(j)) => {
            let instance = trimmed(o.skip(j + 1));
            if r.protocol_parameter.len() > 0 {
                Ok((r, trimmed_end(n.take(i)), trimmed_end(o.take(j))))
            } else if same_but_case(instance, "mssqlserver"@) {
                Err("Instance name 'MSSQLSERVER' is reserved"@)
            } else {
                Ok(
                    (
                        DataSourceView { instance_name: instance, ..r },
                        trimmed_end(n.take(i)),
                        trimmed_end(o.take(j)),
                    ),
                )
            }
        },
        _ => Ok((r, n, o)),
    }
}

/// Whether a name is that of the computer.
pub open spec fn names_computer(name: Seq<char>, computer: Option<Seq<char>>) -> bool {
    computer matches Some(c) && same_but_case(name, c)
}

/// What a data source becomes by the server: a name of the computer itself becomes `localhost` for
/// TCP, and the computer's own name for other protocols.
pub open spec fn with_server(
    r: DataSourceView,
    o: Seq<char>,
    n: Seq<char>,
    computer: Option<Seq<char>>,
) -> DataSourceView {
    let server = trimmed(o);
    let lower = trimmed(n);
    let local = lower == "."@ || lower == "(local)"@ || lower == "localhost"@ || names_computer(
        lower,
        computer,
    );
    DataSourceView {
        original_server_name: server,
        server_name: if !local {
            server
        } else if r.protocol_name == "admin"@ || r.protocol_name == "tcp"@ {
            "localhost"@
        } else {
            match computer {
                Some(c) => c,
                None => server,
            }
        },
        ..r
    }
}

/// Whether a server's name, as it was given, is that of the computer itself.
pub open spec fn is_local_name(name: Seq<char>, computer: Option<Seq<char>>) -> bool {
    name == "."@ || name == "(local)"@ || same_but_case(name, "localhost"@) || names_computer(
        name,
        computer,
    )
}

/// A data source whose protocol is possible: pipes and shared memory are there on Windows alone,
/// shared memory for local servers alone, and only TCP connects to all addresses at once. Where it is
/// not, what people are told.
pub open spec fn validated(
    r: DataSourceView,
    platform: Platform,
    computer: Option<Seq<char>>,
) -> Result<DataSourceView, Seq<char>> {
    let p = r.protocol_name;
    if platform != Platform::Windows && p == "np"@ {
        Err(
            "Named Pipes (np:) protocol is not supported on this platform. Named Pipes are a Windows-only feature. Use TCP instead (e.g., 'tcp:server,port')."@,
        )
    } else if platform != Platform::Windows && p == "lpc"@ {
        Err(
            "Shared Memory (lpc:) protocol is not supported on this platform. Shared Memory is a Windows-only feature. Use TCP instead (e.g., 'tcp:server,port')."@,
        )
    } else if platform == Platform::Windows && p == "lpc"@ && !is_local_name(
        r.original_server_name,
        computer,
    ) {
        Err("Shared Memory (lpc) protocol requires local server"@)
    } else if r.parallel_connect && (p == "np"@ || p == "lpc"@ || p == "admin"@) {
        Err(
            "Protocol '"@ + p + "' is incompatible with parallel connect (MultiSubnetFailover)"@,
        )
    } else if r.parallel_connect && p.len() == 0 {
        Ok(DataSourceView { protocol_name: "tcp"@, ..r })
    } else {
        Ok(r)
    }
}

/// A data source with the name under which it is kept in the cache, and with whether it may be.
pub open spec fn with_alias(r: DataSourceView) -> DataSourceView {
    DataSourceView {
        alias: if r.instance_name.len() == 0 {
            r.server_name
        } else {
            r.server_name + "\\"@ + r.instance_name
        },
        can_use_cache: r.can_use_cache && r.protocol_parameter.len() == 0 && r.protocol_name
            != "admin"@ && !(r.protocol_name == "lpc"@ && r.instance_name.len() > 0)
            && !r.parallel_connect && r.standard_instance_name,
        ..r
    }
}

/// Whether a name in lower case is that of a LocalDB instance.
pub open spec fn is_localdb(n: Seq<char>) -> bool {
    starts(n, "(localdb)\\"@) || starts(n, "(localdb)/"@)
}

/// Whether a name in lower case asks for the container in the place of LocalDB.
pub open spec fn is_container(n: Seq<char>) -> bool {
    is_localdb(n) || n == "(localdb)"@ || n == "makeitwork"@ || starts(n, "localdb://"@)
}

/// A data source that is a LocalDB instance; what people are told where it is none.
pub open spec fn localdb_source(o: Seq<char>, n: Seq<char>, parallel_connect: bool) -> Result<
    DataSourceView,
    Seq<char>,
> {
    let instance = if o.len() >= 10 {
        trimmed(o.skip(10))
    } else {
        Seq::empty()
    };
    if !is_localdb(n) {
        Err("Invalid LocalDB format"@)
    } else if instance.len() == 0 {
        Err("LocalDB instance name cannot be empty"@)
    } else {
        Ok(
            DataSourceView {
                protocol_name: "localdb"@,
                server_name: o,
                original_server_name: o,
                instance_name: instance,
                can_use_cache: false,
                alias: o,
                ..blank(parallel_connect)
            },
        )
    }
}

/// A data source that is the container in the place of LocalDB.
pub open spec fn container_source(o: Seq<char>) -> DataSourceView {
    DataSourceView {
        protocol_name: "linux-localdb"@,
        server_name: o,
        original_server_name: o,
        protocol_parameter: "0"@,
        can_use_cache: false,
        alias: o,
        ..blank(false)
    }
}

/// The parts of a data source's name `o`, which has no white space at its ends and is `n` in lower
/// case.
pub open spec fn source_of(
    o: Seq<char>,
    n: Seq<char>,
    parallel_connect: bool,
    platform: Platform,
    computer: Option<Seq<char>>,
) -> Result<DataSourceView, Seq<char>> {
    if n.len() == 0 {
        Err("Data source string cannot be empty"@)
    } else if platform == Platform::Windows && is_localdb(n) {
        localdb_source(o, n, parallel_connect)
    } else if platform == Platform::OtherWithLocalDb && is_container(n) {
        Ok(container_source(o))
    } else if platform == Platform::Other && is_localdb(n) {
        Err(
            "LocalDB is not supported on this platform. LocalDB is a Windows-only feature. Use a TCP connection string instead (e.g., 'tcp:server,port'), or enable the 'localdb' feature for container-based LocalDB."@,
        )
    } else {
        let (r, n1, o1) = match protocol_split(o, n) {
            Some((p, n1, o1)) => (
                DataSourceView { protocol_name: p, ..blank(parallel_connect) },
                n1,
                o1,
            ),
            None => (blank(parallel_connect), n, o),
        };
        if starts(n1, "\\\\"@) {
            pipe_source(o1, r, platform, computer)
        } else {
            match with_parameter(r, o1, n1) {
                Err(t) => Err(t),
                Ok((r2, n2, o2)) => match with_instance(r2, o2, n2) {
                    Err(t) => Err(t),
                    Ok((r3, n3, o3)) => match validated(
                        with_server(r3, o3, n3, computer),
                        platform,
                        computer,
                    ) {
                        Err(t) => Err(t),
                        Ok(r4) => Ok(with_alias(r4)),
                    },
                },
            }
        }
    }
}

/// Whether an error is the protocol error of which people are told this.
pub open spec fn is_refusal(e: Error, text: Seq<char>) -> bool {
    e.kind() == ErrorKind::Protocol && e.text() == text
}

/// Whether what was read is what was expected.
pub open spec fn read_as(
    r: TdsResult<ParsedDataSource>,
    expected: Result<DataSourceView, Seq<char>>,
) -> bool {
    match expected {
        Ok(v) => r matches Ok(x) && x@ == v,
        Err(t) => r matches Err(e) && is_refusal(e, t),
    }
}

/// A protocol error.
fn refused(text: &str) -> (e: Error)
    ensures
        is_refusal(e, text@),
{
    Error::ProtocolError(String::from_str(text))
}

/// A protocol error about a part of a name.
fn refused_part(text: &str, part: &str) -> (e: Error)
    ensures
        is_refusal(e, text@ + part@),
{
    let mut message = String::from_str(text);
    message.append(part);
    Error::ProtocolError(message)
}

/// Calls `hostname::get`: the computer's name, where there is one and it is a text. Nothing is said of
/// it: it depends on the machine.
#[verifier::external_body]
pub(crate) fn get_computer_name() -> (name: Option<String>) {
    hostname::get().ok().and_then(|name| name.into_string().ok())
}

impl ParsedDataSource {
    /// A data source of which nothing is known yet.
    pub fn new() -> (r: ParsedDataSource)
        ensures
            r@ == blank(false),
    {
        ParsedDataSource {
            protocol_name: String::new(),
            server_name: String::new(),
            original_server_name: String::new(),
            instance_name: String::new(),
            protocol_parameter: String::new(),
            alias: String::new(),
            can_use_cache: true,
            standard_instance_name: true,
            parallel_connect: false,
        }
    }

    /// Reads the name of a data source, on the computer that this is.
    pub fn parse(datasource: &str, parallel_connect: bool) -> (r: TdsResult<ParsedDataSource>)
        ensures
            exists|platform: Platform, computer: Option<Seq<char>>|
                platform != Platform::OtherWithLocalDb && read_as(
                    r,
                    #[trigger] source_of(
                        trimmed(datasource@),
                        lowercased(trimmed(datasource@)),
                        parallel_connect,
                        platform,
                        computer,
                    ),
                ),
            is_ascii_chars(trimmed(datasource@)) ==> lowercased(trimmed(datasource@)) == trimmed(
                datasource@,
            ).map_values(|c: char| ascii_lower(c)),
    {
        let computer = get_computer_name();
        let platform: Platform = Platform::current();
        Self::parse_on(datasource, parallel_connect, platform, &computer)
    }

    /// Reads the name of a data source, on a platform and on a computer with a name.
    pub fn parse_on(
        datasource: &str,
        parallel_connect: bool,
        platform: Platform,
        computer: &Option<String>,
    ) -> (r: TdsResult<ParsedDataSource>)
        ensures
            read_as(
                r,
                source_of(
                    trimmed(datasource@),
                    lowercased(trimmed(datasource@)),
                    parallel_connect,
                    platform,
                    optional(*computer),
                ),
            ),
            is_ascii_chars(trimmed(datasource@)) ==> lowercased(trimmed(datasource@)) == trimmed(
                datasource@,
            ).map_values(|c: char| ascii_lower(c)),
    {
        let original = trim(datasource);
        let normalized = to_lowercase(original.as_str());
        Self::parse_normalized(
            original.as_str(),
            normalized.as_str(),
            parallel_connect,
            platform,
            computer,
        )
    }

    /// Reads the name of a data source that has no white space at its ends, given as it is and in
    /// lower case.
    pub fn parse_normalized(
        original: &str,
        normalized: &str,
        parallel_connect: bool,
        platform: Platform,
        computer: &Option<String>,
    ) -> (r: TdsResult<ParsedDataSource>)
        ensures
            read_as(
                r,
                source_of(original@, normalized@, parallel_connect, platform, optional(*computer)),
            ),
    {
        let mut result = Self::new();
        result.parallel_connect = parallel_connect;
        assert(result@ == blank(parallel_connect));
        if normalized.unicode_len() == 0 {
            return Err(refused("Data source string cannot be empty"));
        }
        let localdb: bool = starts_with(normalized, "(localdb)\\") || starts_with(
            normalized,
            "(localdb)/",
        );
        match platform {
            Platform::Windows => {
                if localdb {
                    return Self::parse_localdb(original, normalized, parallel_connect);
                }
            },
            Platform::OtherWithLocalDb => {
                if localdb || same(normalized, "(localdb)") || same(normalized, "makeitwork")
                    || starts_with(normalized, "localdb://") {
                    return Ok(Self::parse_linux_localdb(original));
                }
            },
            Platform::Other => {
                if localdb {
                    return Err(
                        refused(
                            "LocalDB is not supported on this platform. LocalDB is a Windows-only feature. Use a TCP connection string instead (e.g., 'tcp:server,port'), or enable the 'localdb' feature for container-based LocalDB.",
                        ),
                    );
                }
            },
        }
        let (n1, o1) = Self::parse_protocol(original, normalized, &mut result);
        if starts_with(n1.as_str(), "\\\\") {
            return Self::parse_named_pipe(o1.as_str(), result, platform, computer);
        }
        let (n2, o2) = Self::parse_parameter(o1.as_str(), n1.as_str(), &mut result)?;
        let (n3, o3) = Self::parse_instance(o2.as_str(), n2.as_str(), &mut result)?;
        Self::parse_server(o3.as_str(), n3.as_str(), &mut result, computer);
        Self::validate_protocol(&mut result, platform, computer)?;
        Self::build_alias(&mut result);
        Ok(result)
    }

    /// Takes the protocol off the start of a name. Returns what follows, in lower case and as it was
    /// given.
    pub fn parse_protocol(
        original: &str,
        normalized: &str,
        result: &mut ParsedDataSource,
    ) -> (rest: (String, String))
        ensures
            match protocol_split(original@, normalized@) {
                Some((p, n, o)) => rest.0@ == n && rest.1@ == o && final(result)@ == (
                DataSourceView { protocol_name: p, ..old(result)@ }),
                None => rest.0@ == normalized@ && rest.1@ == original@ && *final(result) == *old(
                    result,
                ),
            },
    {
        if let Some(i) = find_char(normalized, ':') {
            if let Some(j) = find_char(original, ':') {
                let is_ipv6: bool = count_char(normalized, ':') > 1;
                if !is_ipv6 && i > 0 {
                    let protocol = trim(before(normalized, i).as_str());
                    if same(protocol.as_str(), "tcp") || same(protocol.as_str(), "np") || same(
                        protocol.as_str(),
                        "lpc",
                    ) || same(protocol.as_str(), "admin") {
                        result.protocol_name = protocol;
                        return (
                            trim_start(from(normalized, i + 1).as_str()),
                            trim_start(from(original, j + 1).as_str()),
                        );
                    }
                }
            }
        }
        (String::from_str(normalized), String::from_str(original))
    }

    /// Reads the path of a named pipe.
    pub fn parse_named_pipe(
        input: &str,
        parsed: ParsedDataSource,
        platform: Platform,
        computer: &Option<String>,
    ) -> (r: TdsResult<ParsedDataSource>)
        ensures
            read_as(r, pipe_source(input@, parsed@, platform, optional(*computer))),
    {
        let mut result = parsed;
        proof {
            reveal_strlit("\\\\");
            reveal_strlit("\\pipe\\");
        }
        if !starts_with(input, "\\\\") {
            return Err(refused("Invalid named pipe path"));
        }
        let after_slashes = from(input, 2);
        let server_end: usize = match find_char(after_slashes.as_str(), '\\') {
            Some(i) => i,
            None => {
                return Err(refused("Invalid named pipe path - no server specified"));
            },
        };
        let server = before(after_slashes.as_str(), server_end);
        if server_end == 0 {
            return Err(refused("Invalid named pipe path - blank server"));
        }
        result.protocol_parameter = String::from_str(input);
        result.protocol_name = String::from_str("np");
        result.server_name = if same(server.as_str(), ".") {
            String::from_str("localhost")
        } else {
            server.clone()
        };
        result.original_server_name = server;
        let pipe_path = from(after_slashes.as_str(), server_end);
        let len: usize = pipe_path.as_str().unicode_len();
        if same(pipe_path.as_str(), "\\pipe\\sql\\query") {
            result.instance_name = String::new();
            result.standard_instance_name = true;
        } else if len >= 22 && eq_ignore_ascii_case(
            before(pipe_path.as_str(), 12).as_str(),
            "\\pipe\\mssql$",
        ) && eq_ignore_ascii_case(from(pipe_path.as_str(), len - 10).as_str(), "\\sql\\query") {
            result.instance_name = String::from_str(pipe_path.as_str().substring_char(12, len - 10));
            result.standard_instance_name = true;
        } else if starts_with(pipe_path.as_str(), "\\pipe\\") {
            result.instance_name = text_message("pipe", from(pipe_path.as_str(), 6).as_str(), "");
            assert(result.instance_name@ =~= "pipe"@ + pipe_path@.skip(6)) by {
                reveal_strlit("");
            }
            result.standard_instance_name = false;
        } else {
            return Err(refused_part("Invalid named pipe path: ", input));
        }
        result.can_use_cache = false;
        Self::validate_protocol(&mut result, platform, computer)?;
        Ok(result)
    }

    /// Takes the parameter off the end of a name. Returns what stands before it.
    pub fn parse_parameter(
        original: &str,
        normalized: &str,
        result: &mut ParsedDataSource,
    ) -> (r: TdsResult<(String, String)>)
        ensures
            match with_parameter(old(result)@, original@, normalized@) {
                Ok((v, n, o)) => final(result)@ == v && (r matches Ok(rest) && rest.0@ == n
                    && rest.1@ == o),
                Err(t) => *final(result) == *old(result) && (r matches Err(e) && is_refusal(e, t)),
            },
    {
        if let Some(i) = find_char(normalized, ',') {
            if let Some(j) = find_char(original, ',') {
                let parameter = trim(from(original, j + 1).as_str());
                if result.protocol_name.as_str().unicode_len() > 0 && !same(
                    result.protocol_name.as_str(),
                    "tcp",
                ) {
                    return Err(
                        refused_part(
                            "Port parameter only valid for TCP protocol, got: ",
                            result.protocol_name.as_str(),
                        ),
                    );
                }
                result.protocol_name = String::from_str("tcp");
                result.protocol_parameter = match find_char(parameter.as_str(), '\\') {
                    Some(k) => before(parameter.as_str(), k),
                    None => parameter,
                };
                result.can_use_cache = false;
                return Ok(
                    (
                        trim_end(before(normalized, i).as_str()),
                        trim_end(before(original, j).as_str()),
                    ),
                );
            }
        }
        Ok((String::from_str(normalized), String::from_str(original)))
    }

    /// Takes the instance off the end of a name. Returns what stands before it.
    pub fn parse_instance(
        original: &str,
        normalized: &str,
        result: &mut ParsedDataSource,
    ) -> (r: TdsResult<(String, String)>)
        ensures
            match with_instance(old(result)@, original@, normalized@) {
                Ok((v, n, o)) => final(result)@ == v && (r matches Ok(rest) && rest.0@ == n
                    && rest.1@ == o),
                Err(t) => *final(result) == *old(result) && (r matches Err(e) && is_refusal(e, t)),
            },
    {
        if let Some(i) = find_char(normalized, '\\') {
            if let Some(j) = find_char(original, '\\') {
                let instance = trim(from(original, j + 1).as_str());
                if result.protocol_parameter.as_str().unicode_len() == 0 {
                    if eq_ignore_ascii_case(instance.as_str(), "mssqlserver") {
                        return Err(refused("Instance name 'MSSQLSERVER' is reserved"));
                    }
                    result.instance_name = instance;
                }
                return Ok(
                    (
                        trim_end(before(normalized, i).as_str()),
                        trim_end(before(original, j).as_str()),
                    ),
                );
            }
        }
        Ok((String::from_str(normalized), String::from_str(original)))
    }

    /// Takes what is left of a name as the server.
    pub fn parse_server(
        original: &str,
        normalized: &str,
        result: &mut ParsedDataSource,
        computer: &Option<String>,
    )
        ensures
            final(result)@ == with_server(
                old(result)@,
                original@,
                normalized@,
                optional(*computer),
            ),
    {
        let server = trim(original);
        let normalized_server = trim(normalized);
        let lower = normalized_server.as_str();
        let is_local: bool = same(lower, ".") || same(lower, "(local)") || same(lower, "localhost")
            || Self::is_computer_name(lower, computer);
        if is_local {
            if same(result.protocol_name.as_str(), "admin") || same(
                result.protocol_name.as_str(),
                "tcp",
            ) {
                result.server_name = String::from_str("localhost");
            } else {
                result.server_name = match computer {
                    Some(c) => c.clone(),
                    None => server.clone(),
                };
            }
        } else {
            result.server_name = server.clone();
        }
        result.original_server_name = server;
    }

    /// Checks that the protocol is possible; without one, connecting to all addresses at once is by
    /// TCP.
    pub fn validate_protocol(
        result: &mut ParsedDataSource,
        platform: Platform,
        computer: &Option<String>,
    ) -> (r: TdsResult<()>)
        ensures
            match validated(old(result)@, platform, optional(*computer)) {
                Ok(v) => final(result)@ == v && r is Ok,
                Err(t) => *final(result) == *old(result) && (r matches Err(e) && is_refusal(e, t)),
            },
    {
        let is_np: bool = same(result.protocol_name.as_str(), "np");
        let is_lpc: bool = same(result.protocol_name.as_str(), "lpc");
        let is_admin: bool = same(result.protocol_name.as_str(), "admin");
        match platform {
            Platform::Windows => {
                if is_lpc {
                    let name = result.original_server_name.as_str();
                    let is_local: bool = same(name, ".") || same(name, "(local)")
                        || eq_ignore_ascii_case(name, "localhost") || Self::is_computer_name(
                        name,
                        computer,
                    );
                    if !is_local {
                        return Err(refused("Shared Memory (lpc) protocol requires local server"));
                    }
                }
            },
            _ => {
                if is_np {
                    return Err(
                        refused(
                            "Named Pipes (np:) protocol is not supported on this platform. Named Pipes are a Windows-only feature. Use TCP instead (e.g., 'tcp:server,port').",
                        ),
                    );
                }
                if is_lpc {
                    return Err(
                        refused(
                            "Shared Memory (lpc:) protocol is not supported on this platform. Shared Memory is a Windows-only feature. Use TCP instead (e.g., 'tcp:server,port').",
                        ),
                    );
                }
            },
        }
        if result.parallel_connect {
            if is_np || is_lpc || is_admin {
                return Err(
                    Error::ProtocolError(
                        text_message(
                            "Protocol '",
                            result.protocol_name.as_str(),
                            "' is incompatible with parallel connect (MultiSubnetFailover)",
                        ),
                    ),
                );
            }
            if result.protocol_name.as_str().unicode_len() == 0 {
                result.protocol_name = String::from_str("tcp");
            }
        }
        Ok(())
    }

    /// Sets the name under which the data source is kept in the cache, and whether it may be.
    pub fn build_alias(result: &mut ParsedDataSource)
        ensures
            final(result)@ == with_alias(old(result)@),
    {
        if result.instance_name.as_str().unicode_len() == 0 {
            result.alias = result.server_name.clone();
        } else {
            result.alias = text_message(
                result.server_name.as_str(),
                "\\",
                result.instance_name.as_str(),
            );
        }
        if result.protocol_parameter.as_str().unicode_len() > 0 {
            result.can_use_cache = false;
        }
        if same(result.protocol_name.as_str(), "admin") {
            result.can_use_cache = false;
        }
        if same(result.protocol_name.as_str(), "lpc") && result.instance_name.as_str().unicode_len()
            > 0 {
            result.can_use_cache = false;
        }
        if result.parallel_connect {
            result.can_use_cache = false;
        }
        if !result.standard_instance_name {
            result.can_use_cache = false;
        }
    }

    /// Reads the name of a LocalDB instance.
    pub fn parse_localdb(original: &str, normalized: &str, parallel_connect: bool) -> (r: TdsResult<
        ParsedDataSource,
    >)
        ensures
            read_as(r, localdb_source(original@, normalized@, parallel_connect)),
    {
        if !starts_with(normalized, "(localdb)\\") && !starts_with(normalized, "(localdb)/") {
            return Err(refused("Invalid LocalDB format"));
        }
        let instance_name = if original.unicode_len() >= 10 {
            trim(from(original, 10).as_str())
        } else {
            String::new()
        };
        if instance_name.as_str().unicode_len() == 0 {
            return Err(refused("LocalDB instance name cannot be empty"));
        }
        let mut result = ParsedDataSource::new();
        result.protocol_name = String::from_str("localdb");
        result.server_name = String::from_str(original);
        result.original_server_name = String::from_str(original);
        result.instance_name = instance_name;
        result.can_use_cache = false;
        result.alias = String::from_str(original);
        result.parallel_connect = parallel_connect;
        Ok(result)
    }

    /// The data source that is the container in the place of LocalDB. Its port is found when it is
    /// connected to.
    pub fn parse_linux_localdb(original: &str) -> (r: ParsedDataSource)
        ensures
            r@ == container_source(original@),
    {
        let mut result = ParsedDataSource::new();
        result.protocol_name = String::from_str("linux-localdb");
        result.server_name = String::from_str(original);
        result.original_server_name = String::from_str(original);
        result.protocol_parameter = String::from_str("0");
        result.can_use_cache = false;
        result.alias = String::from_str(original);
        result
    }

    /// Whether a name is that of the computer.
    pub fn is_computer_name(name: &str, computer: &Option<String>) -> (b: bool)
        ensures
            b == names_computer(name@, optional(*computer)),
    {
        match computer {
            Some(c) => eq_ignore_ascii_case(name, c.as_str()),
            None => false,
        }
    }

    /// The protocol of a data source.
    pub open spec fn protocol_type(v: DataSourceView, platform: Platform) -> ProtocolType {
        let p = v.protocol_name;
        if p == "tcp"@ {
            ProtocolType::Tcp
        } else if p == "np"@ {
            ProtocolType::NamedPipe
        } else if p == "lpc"@ {
            ProtocolType::SharedMemory
        } else if p == "admin"@ {
            ProtocolType::Admin
        } else if platform == Platform::Windows && p == "localdb"@ {
            ProtocolType::NamedPipe
        } else {
            ProtocolType::Auto
        }
    }

    /// The protocol of a data source.
    pub fn get_protocol_type(&self, platform: Platform) -> (t: ProtocolType)
        ensures
            t == Self::protocol_type(self@, platform),
    {
        let p = self.protocol_name.as_str();
        if same(p, "tcp") {
            ProtocolType::Tcp
        } else if same(p, "np") {
            ProtocolType::NamedPipe
        } else if same(p, "lpc") {
            ProtocolType::SharedMemory
        } else if same(p, "admin") {
            ProtocolType::Admin
        } else if matches!(platform, Platform::Windows) && same(p, "localdb") {
            ProtocolType::NamedPipe
        } else {
            ProtocolType::Auto
        }
    }

    /// Whether the server is the computer itself.
    pub open spec fn local(v: DataSourceView, computer: Option<Seq<char>>) -> bool {
        let name = v.original_server_name;
        name == "."@ || name == "(local)"@ || same_but_case(name, "localhost"@) || name
            == "127.0.0.1"@ || name == "::1"@ || names_computer(name, computer)
    }

    /// Whether the server is the computer itself.
    pub fn is_local(&self) -> (b: bool)
        ensures
            exists|computer: Option<Seq<char>>| b == #[trigger] Self::local(self@, computer),
    {
        let computer = get_computer_name();
        self.is_local_on(&computer)
    }

    /// Whether the server is the computer itself, which has a name.
    pub fn is_local_on(&self, computer: &Option<String>) -> (b: bool)
        ensures
            b == Self::local(self@, optional(*computer)),
    {
        let name = self.original_server_name.as_str();
        same(name, ".") || same(name, "(local)") || eq_ignore_ascii_case(name, "localhost") || same(
            name,
            "127.0.0.1",
        ) || same(name, "::1") || Self::is_computer_name(name, computer)
    }

    /// Whether the server has to be asked where an instance is: an instance is named, and no port.
    pub open spec fn spec_needs_ssrp(v: DataSourceView) -> bool {
        v.instance_name.len() > 0 && v.protocol_parameter.len() == 0
    }

    /// Whether the server has to be asked where an instance is.
    pub fn needs_ssrp(&self) -> (b: bool)
        ensures
            b == Self::spec_needs_ssrp(self@),
    {
        self.instance_name.as_str().unicode_len() > 0
            && self.protocol_parameter.as_str().unicode_len() == 0
    }
}

/// The named pipe of a data source: the one that was given, or that of the instance.
pub open spec fn pipe_of(v: DataSourceView) -> Seq<char> {
    if v.protocol_parameter.len() > 0 {
        v.protocol_parameter
    } else if v.instance_name.len() > 0 && !same_but_case(v.instance_name, "default"@) {
        "\\\\"@ + v.server_name + "\\pipe\\MSSQL$"@ + v.instance_name + "\\sql\\query"@
    } else {
        default_pipe_path(v.server_name)
    }
}

/// The port of a data source: the one that was given, or that of the default instance.
pub open spec fn port_of(v: DataSourceView) -> u16 {
    match number_of(v.protocol_parameter) {
        Some(port) => port,
        None => DEFAULT_PORT,
    }
}

/// How a data source with a protocol is connected to.
pub open spec fn protocol_steps(v: DataSourceView, platform: Platform, timeout: u64) -> Seq<
    StepView,
> {
    match ParsedDataSource::protocol_type(v, platform) {
        ProtocolType::Tcp => seq![
            StepView::One(ActionView::ConnectTcp(v.server_name, port_of(v), timeout)),
        ],
        ProtocolType::NamedPipe => seq![
            StepView::One(ActionView::ConnectNamedPipe(pipe_of(v), timeout)),
        ],
        ProtocolType::SharedMemory => if platform == Platform::Windows {
            seq![
                StepView::One(
                    ActionView::ConnectSharedMemory(
                        if v.instance_name.len() == 0 {
                            "MSSQLSERVER"@
                        } else {
                            v.instance_name
                        },
                        timeout,
                    ),
                ),
            ]
        } else {
            Seq::empty()
        },
        ProtocolType::Admin => seq![StepView::One(ActionView::ConnectDac(v.server_name, timeout))],
        ProtocolType::Auto => Seq::empty(),
    }
}

/// How a data source is connected to: after a look into the cache, where it may be there.
pub open spec fn chain_of(
    v: DataSourceView,
    platform: Platform,
    computer: Option<Seq<char>>,
    timeout: u64,
) -> Seq<StepView> {
    let cached = if v.can_use_cache {
        seq![StepView::One(ActionView::CheckCache(v.alias))]
    } else {
        Seq::empty()
    };
    if platform == Platform::Windows && v.protocol_name == "localdb"@ {
        cached + seq![
            StepView::One(ActionView::ResolveLocalDb(v.instance_name)),
            StepView::One(
                ActionView::ConnectNamedPipeFromSlot(ResultSlot::ResolvedPipePath, timeout),
            ),
        ]
    } else if platform == Platform::OtherWithLocalDb && v.protocol_name == "linux-localdb"@ {
        cached + seq![StepView::One(ActionView::ConnectTcp(v.server_name, 0, timeout))]
    } else if ParsedDataSource::spec_needs_ssrp(v) {
        cached + seq![StepView::One(ActionView::QuerySsrp(v.server_name, v.instance_name))] + (
        if v.can_use_cache {
            seq![StepView::One(ActionView::UpdateCache(v.alias, 0))]
        } else {
            Seq::empty()
        }) + seq![
            StepView::One(
                ActionView::ConnectTcpFromSlot(v.server_name, ResultSlot::ResolvedPort, timeout),
            ),
        ]
    } else if v.protocol_name.len() > 0 {
        cached + protocol_steps(v, platform, timeout)
    } else if v.parallel_connect {
        cached + seq![
            StepView::One(ActionView::ConnectTcpParallel(v.server_name, port_of(v), timeout)),
        ]
    } else {
        cached + seq![
            StepView::Try(
                waterfall(v.server_name, ParsedDataSource::local(v, computer), platform, timeout),
                timeout,
            ),
        ]
    }
}

/// Whether a chain's description is that of a data source.
pub open spec fn describes(m: ConnectionMetadata, v: DataSourceView, timeout: u64) -> bool {
    &&& m.source_string@ == without_end(v.original_server_name + "\\"@ + v.instance_name, '\\')
    &&& m.server_name@ == v.server_name
    &&& m.instance_name@ == v.instance_name
    &&& m.explicit_protocol == (v.protocol_name.len() > 0)
    &&& m.timeout_ms == timeout
}

impl ParsedDataSource {
    /// How the data source is connected to, from the computer that this is.
    pub fn to_connection_actions(&self, timeout_ms: u64) -> (c: ConnectionActionChain)
        ensures
            describes(c.spec_metadata(), self@, timeout_ms),
            exists|platform: Platform, computer: Option<Seq<char>>|
                platform != Platform::OtherWithLocalDb && c.steps() == #[trigger] chain_of(
                    self@,
                    platform,
                    computer,
                    timeout_ms,
                ),
    {
        let computer = get_computer_name();
        let platform: Platform = Platform::current();
        self.to_connection_actions_on(timeout_ms, platform, &computer)
    }

    /// How the data source is connected to, on a platform and from a computer with a name.
    pub fn to_connection_actions_on(
        &self,
        timeout_ms: u64,
        platform: Platform,
        computer: &Option<String>,
    ) -> (c: ConnectionActionChain)
        ensures
            describes(c.spec_metadata(), self@, timeout_ms),
            c.steps() == chain_of(self@, platform, optional(*computer), timeout_ms),
    {
        let source = text_message(
            self.original_server_name.as_str(),
            "\\",
            self.instance_name.as_str(),
        );
        let metadata = ConnectionMetadata {
            source_string: trim_end_char(source.as_str(), '\\'),
            server_name: self.server_name.clone(),
            instance_name: self.instance_name.clone(),
            explicit_protocol: self.protocol_name.as_str().unicode_len() > 0,
            timeout_ms,
        };
        let mut builder = ConnectionActionChainBuilder::new(metadata);
        if self.can_use_cache {
            builder.add_check_cache(self.alias.as_str());
        }
        let ghost cached = builder.steps();
        if matches!(platform, Platform::Windows) && same(self.protocol_name.as_str(), "localdb") {
            builder.add_resolve_localdb(self.instance_name.as_str());
            builder.add_connect_named_pipe_from_slot(ResultSlot::ResolvedPipePath);
            return builder.build();
        }
        if matches!(platform, Platform::OtherWithLocalDb) && same(
            self.protocol_name.as_str(),
            "linux-localdb",
        ) {
            builder.add_connect_tcp(self.server_name.as_str(), 0);
            return builder.build();
        }
        if self.needs_ssrp() {
            builder.add_ssrp_query(self.server_name.as_str(), self.instance_name.as_str());
            if self.can_use_cache {
                builder.add_update_cache(self.alias.as_str(), 0);
            }
            builder.add_connect_tcp_from_slot(self.server_name.as_str(), ResultSlot::ResolvedPort);
            return builder.build();
        }
        let port: u16 = match parse_u16(self.protocol_parameter.as_str()) {
            Some(p) => p,
            None => DEFAULT_PORT,
        };
        if self.protocol_name.as_str().unicode_len() > 0 {
            match self.get_protocol_type(platform) {
                ProtocolType::Tcp => {
                    builder.add_connect_tcp(self.server_name.as_str(), port);
                },
                ProtocolType::NamedPipe => {
                    let pipe = self.pipe_path();
                    builder.add_connect_named_pipe(pipe.as_str());
                },
                ProtocolType::SharedMemory => {
                    if matches!(platform, Platform::Windows) {
                        if self.instance_name.as_str().unicode_len() == 0 {
                            builder.add_connect_shared_memory("MSSQLSERVER");
                        } else {
                            builder.add_connect_shared_memory(self.instance_name.as_str());
                        }
                    }
                },
                ProtocolType::Admin => {
                    builder.add_connect_dac(self.server_name.as_str());
                },
                ProtocolType::Auto => {},
            }
            assert(builder.steps() =~= cached + protocol_steps(self@, platform, timeout_ms));
            return builder.build();
        }
        if self.parallel_connect {
            builder.add_parallel_tcp_connect(self.server_name.as_str(), port);
            return builder.build();
        }
        builder.add_protocol_waterfall(
            self.server_name.as_str(),
            self.is_local_on(computer),
            platform,
        );
        builder.build()
    }

    /// The named pipe of the data source.
    fn pipe_path(&self) -> (s: String)
        ensures
            s@ == pipe_of(self@),
    {
        if self.protocol_parameter.as_str().unicode_len() > 0 {
            self.protocol_parameter.clone()
        } else if self.instance_name.as_str().unicode_len() > 0 && !eq_ignore_ascii_case(
            self.instance_name.as_str(),
            "default",
        ) {
            let mut s = text_message("\\\\", self.server_name.as_str(), "\\pipe\\MSSQL$");
            s.append(self.instance_name.as_str());
            s.append("\\sql\\query");
            s
        } else {
            default_pipe(self.server_name.as_str())
        }
    }
}

/// A port takes precedence over an instance: a data source with a parameter is not looked up, and is
/// connected to at once by TCP.
pub proof fn law_port_needs_no_lookup(
    v: DataSourceView,
    platform: Platform,
    computer: Option<Seq<char>>,
    timeout: u64,
)
    requires
        v.protocol_name == "tcp"@,
        v.protocol_parameter.len() > 0,
        !v.can_use_cache,
    ensures
        chain_of(v, platform, computer, timeout) == seq![
            StepView::One(ActionView::ConnectTcp(v.server_name, port_of(v), timeout)),
        ],
{
    reveal_strlit("tcp");
    reveal_strlit("localdb");
    reveal_strlit("linux-localdb");
    assert("tcp"@.len() == 3 && "localdb"@.len() == 7 && "linux-localdb"@.len() == 13);
    assert(chain_of(v, platform, computer, timeout) =~= seq![
        StepView::One(ActionView::ConnectTcp(v.server_name, port_of(v), timeout)),
    ]);
}

/// Connecting to all addresses at once is by TCP alone, and never goes through the cache.
pub proof fn law_parallel_is_tcp(
    o: Seq<char>,
    n: Seq<char>,
    platform: Platform,
    computer: Option<Seq<char>>,
)
    requires
        platform != Platform::OtherWithLocalDb || !is_container(n),
        platform != Platform::Windows || !is_localdb(n),
    ensures
        source_of(o, n, true, platform, computer) matches Ok(v) ==> v.protocol_name == "tcp"@
            && !v.can_use_cache,
{
    reveal_strlit("tcp");
    reveal_strlit("np");
    reveal_strlit("lpc");
    reveal_strlit("admin");
}

/// What is left of a text without white space at its start has none there.
proof fn lemma_trimmed_start(s: Seq<char>)
    ensures
        trimmed_start(s).len() > 0 ==> !is_white_space(trimmed_start(s)[0]),
    decreases s.len(),
{
    if s.len() > 0 && is_white_space(s[0]) {
        lemma_trimmed_start(s.drop_first());
    }
}

/// Taking white space off the end of a text leaves its start, and none at the end.
proof fn lemma_trimmed_end(s: Seq<char>)
    ensures
        trimmed_end(s).len() <= s.len(),
        trimmed_end(s).len() > 0 ==> trimmed_end(s)[0] == s[0] && !is_white_space(
            trimmed_end(s).last(),
        ),
    decreases s.len(),
{
    if s.len() > 0 && is_white_space(s.last()) {
        lemma_trimmed_end(s.drop_last());
    }
}

/// A data source and the same one without the white space at its ends are read alike: both come to the
/// same parts, or to the same error, and people are told the same of it.
pub proof fn law_trimming_changes_nothing(
    s: Seq<char>,
    parallel_connect: bool,
    platform: Platform,
    computer: Option<Seq<char>>,
)
    ensures
        trimmed(trimmed(s)) == trimmed(s),
        ({
            let t = trimmed(s);
            source_of(trimmed(t), lowercased(trimmed(t)), parallel_connect, platform, computer)
                == source_of(t, lowercased(t), parallel_connect, platform, computer)
        }),
{
    lemma_trimmed_start(s);
    lemma_trimmed_end(trimmed_start(s));
}

/// A data source that may be kept in the cache names a server alone, or a server and an instance in
/// the usual way: no port, no pipe, no administrator, and not all addresses at once.
pub proof fn law_cached_sources(
    o: Seq<char>,
    n: Seq<char>,
    parallel_connect: bool,
    platform: Platform,
    computer: Option<Seq<char>>,
)
    ensures
        source_of(o, n, parallel_connect, platform, computer) matches Ok(v) ==> (v.can_use_cache ==> (
        v.protocol_parameter.len() == 0 && v.standard_instance_name && !v.parallel_connect
            && v.protocol_name != "admin"@ && (v.protocol_name == "lpc"@ ==> v.instance_name.len()
            == 0))),
{
}

impl Default for ParsedDataSource {
    fn default() -> (r: ParsedDataSource)
        ensures
            r@ == blank(false),
    {
        Self::new()
    }
}

} // verus!
