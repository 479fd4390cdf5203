//! What the name of a data source says, and where it leads to.

use crate::connection::connection_actions::{
    asks_browser, is_localdb_of, way_of, waterfall, ways, ActionView, ConnectionMetadata, Platform,
    ResultSlot, StepView, TransportView,
};
use crate::connection::datasource_parser::{
    blank, chain_of, describes, is_container, is_local_name, is_localdb, pipe_instance, pipe_of, pipe_split, port_of,
    protocol_split, source_of, validated, with_alias, with_instance, with_parameter, with_server,
    DataSourceView, ParsedDataSource,
};
use crate::strings::{
    ascii_lower, is_numeral, law_ascii_lower, law_first_occurrence, law_number_of, law_occurrences,
    numeral, occurrences, position, same_but_case, starts, without_end,
};
use crate::text::{is_white_space, law_white_space, trimmed, trimmed_end, trimmed_start};
use vstd::prelude::*;

verus! {

/// A text in the lower case of ASCII.
pub open spec fn lower(s: Seq<char>) -> Seq<char> {
    s.map_values(|c: char| ascii_lower(c))
}

/// Whether a text is a part of a name: it is not empty, and has neither white space nor a character that
/// separates parts.
pub open spec fn is_part(s: Seq<char>) -> bool {
    s.len() > 0 && forall|i: int|
        0 <= i < s.len() ==> !is_white_space(#[trigger] s[i]) && s[i] != ':' && s[i] != ',' && s[i]
            != '\\' && s[i] != '/'
}

/// The name of a data source: perhaps a protocol, the server, perhaps an instance of it, and perhaps a port.
pub open spec fn name_of(
    protocol: Option<Seq<char>>,
    server: Seq<char>,
    instance: Option<Seq<char>>,
    port: Option<Seq<char>>,
) -> Seq<char> {
    (match protocol {
        Some(p) => p + seq![':'],
        None => Seq::empty(),
    }) + server_part(server, instance, port)
}

/// The name of a data source without its protocol.
pub open spec fn server_part(
    server: Seq<char>,
    instance: Option<Seq<char>>,
    port: Option<Seq<char>>,
) -> Seq<char> {
    instance_part(server, instance) + (match port {
        Some(x) => seq![','] + x,
        None => Seq::empty(),
    })
}

/// The name of a data source without its protocol and its port.
pub open spec fn instance_part(server: Seq<char>, instance: Option<Seq<char>>) -> Seq<char> {
    server + (match instance {
        Some(x) => seq!['\\'] + x,
        None => Seq::empty(),
    })
}

/// Separators have no other case.
proof fn lemma_lower(s: Seq<char>, c: char)
    requires
        c == ':' || c == ',' || c == '\\' || c == '/',
    ensures
        lower(s).len() == s.len(),
        lower(s).contains(c) == s.contains(c),
        position(lower(s), c) == position(s, c),
        occurrences(lower(s), c) == occurrences(s, c),
{
    lemma_lower_at(s, c);
    law_first_occurrence(s, c);
    law_first_occurrence(lower(s), c);
    if s.contains(c) {
        let i = s.index_of(c);
        assert(lower(s)[i] == c);
    }
    if lower(s).contains(c) {
        let i = lower(s).index_of(c);
        assert(s[i] == c);
    }
    if position(s, c) is Some && position(lower(s), c) is Some {
        let i = position(s, c)->Some_0;
        let j = position(lower(s), c)->Some_0;
        assert(lower(s)[i] == c);
        assert(s[j] == c);
    }
    lemma_lower_occurrences(s, c);
}

/// A separator stands where it stood.
proof fn lemma_lower_at(s: Seq<char>, c: char)
    requires
        c == ':' || c == ',' || c == '\\' || c == '/',
    ensures
        lower(s).len() == s.len(),
        forall|i: int| 0 <= i < s.len() ==> (#[trigger] lower(s)[i] == c) == (s[i] == c),
{
    assert forall|i: int| 0 <= i < s.len() implies (#[trigger] lower(s)[i] == c) == (s[i] == c) by {
        lemma_lower_char(s[i], c);
    }
}

/// No letter becomes a separator.
proof fn lemma_lower_char(x: char, c: char)
    requires
        c == ':' || c == ',' || c == '\\' || c == '/',
    ensures
        (ascii_lower(x) == c) == (x == c),
{
    law_ascii_lower(x);
}

/// Separators occur as often.
proof fn lemma_lower_occurrences(s: Seq<char>, c: char)
    requires
        c == ':' || c == ',' || c == '\\' || c == '/',
    ensures
        occurrences(lower(s), c) == occurrences(s, c),
    decreases s.len(),
{
    if s.len() > 0 {
        lemma_lower_occurrences(s.drop_last(), c);
        assert(lower(s).drop_last() =~= lower(s.drop_last()));
        lemma_lower_char(s.last(), c);
    }
}

/// The first separator behind a text that has none.
proof fn lemma_separator(a: Seq<char>, c: char, b: Seq<char>)
    requires
        !a.contains(c),
    ensures
        position(a + (seq![c] + b), c) == Some(a.len() as int),
        position(a, c) is None,
{
    let s = a + (seq![c] + b);
    law_first_occurrence(s, c);
    law_first_occurrence(a, c);
    assert(s[a.len() as int] == c);
    if position(s, c) is Some && position(s, c)->Some_0 < a.len() {
        assert(a[position(s, c)->Some_0] == c);
    }
}

/// Nothing is trimmed from a text without white space at its ends.
proof fn lemma_not_trimmed(s: Seq<char>)
    requires
        s.len() > 0 ==> !is_white_space(s[0]) && !is_white_space(s.last()),
    ensures
        trimmed_start(s) == s,
        trimmed_end(s) == s,
        trimmed(s) == s,
{
}

/// White space has no case, and letters are none.
proof fn lemma_lower_space(c: char)
    ensures
        is_white_space(ascii_lower(c)) == is_white_space(c),
{
    law_ascii_lower(c);
}

/// A part of a name has no separators, and its lower case is one too.
proof fn lemma_part(s: Seq<char>)
    requires
        is_part(s),
    ensures
        is_part(lower(s)),
        lower(s).len() == s.len(),
        !s.contains(':') && !s.contains(',') && !s.contains('\\') && !s.contains('/'),
        !lower(s).contains(':') && !lower(s).contains(',') && !lower(s).contains('\\')
            && !lower(s).contains('/'),
        trimmed(s) == s,
        trimmed(lower(s)) == lower(s),
{
    lemma_lower(s, ':');
    lemma_lower(s, ',');
    lemma_lower(s, '\\');
    lemma_lower(s, '/');
    let l = lower(s);
    lemma_lower_at(s, ':');
    lemma_lower_at(s, ',');
    lemma_lower_at(s, '\\');
    lemma_lower_at(s, '/');
    assert forall|i: int| 0 <= i < l.len() implies !is_white_space(#[trigger] l[i]) by {
        lemma_lower_space(s[i]);
        assert(!is_white_space(s[i]));
    }
    assert(s.last() == s[s.len() - 1] && l.last() == l[l.len() - 1]);
    assert(!is_white_space(s[0]) && !is_white_space(s[s.len() - 1]));
    lemma_not_trimmed(s);
    lemma_not_trimmed(l);
}

/// The parts of a name are parts.
pub open spec fn are_parts(server: Seq<char>, instance: Option<Seq<char>>, port: Option<Seq<char>>) -> bool {
    &&& is_part(server)
    &&& instance matches Some(x) ==> is_part(x)
    &&& port matches Some(x) ==> is_part(x)
}

/// The lower case of texts one after the other.
proof fn lemma_lower_concat(a: Seq<char>, b: Seq<char>)
    ensures
        lower(a + b) == lower(a) + lower(b),
{
    assert(lower(a + b) =~= lower(a) + lower(b));
}

/// Where an instance is behind a server.
proof fn lemma_instance_part(server: Seq<char>, instance: Option<Seq<char>>)
    requires
        are_parts(server, instance, None),
    ensures
        ({
            let s = instance_part(server, instance);
            &&& !s.contains(':') && !s.contains(',') && !s.contains('/')
            &&& s.len() > 0
            &&& !is_white_space(s[0]) && !is_white_space(s.last()) && s[0] == server[0]
            &&& position(s, '\\') == (if instance is Some {
                Some(server.len() as int)
            } else {
                None
            })
            &&& s.take(server.len() as int) == server
            &&& instance matches Some(x) ==> s.skip(server.len() as int + 1) == x
        }),
{
    let s = instance_part(server, instance);
    lemma_part(server);
    assert(s.take(server.len() as int) =~= server);
    match instance {
        Some(x) => {
            lemma_part(x);
            lemma_separator(server, '\\', x);
            assert(s.skip(server.len() as int + 1) =~= x);
            assert(s.last() == x.last());
            assert(x.last() == x[x.len() - 1]);
            assert forall|i: int| 0 <= i < s.len() implies #[trigger] s[i] != ':' && s[i] != ',' && s[i]
                != '/' by {
                if i > server.len() {
                    assert(s[i] == x[i - server.len() - 1]);
                } else if i < server.len() {
                    assert(s[i] == server[i]);
                }
            }
        },
        None => {
            assert(s =~= server);
            lemma_separator(server, '\\', server);
            assert(s.last() == server[server.len() - 1]);
        },
    }
    assert(!is_white_space(server[0]));
}

/// Where a port is behind a server.
proof fn lemma_server_part(server: Seq<char>, instance: Option<Seq<char>>, port: Option<Seq<char>>)
    requires
        are_parts(server, instance, port),
    ensures
        ({
            let front = instance_part(server, instance);
            let s = server_part(server, instance, port);
            &&& !s.contains(':') && !s.contains('/')
            &&& s.len() >= front.len() > 0
            &&& s[0] == server[0]
            &&& position(s, ',') == (if port is Some {
                Some(front.len() as int)
            } else {
                None
            })
            &&& s.take(front.len() as int) == front
            &&& port matches Some(x) ==> s.skip(front.len() as int + 1) == x
        }),
{
    let front = instance_part(server, instance);
    let s = server_part(server, instance, port);
    lemma_instance_part(server, instance);
    assert(s.take(front.len() as int) =~= front);
    match port {
        Some(x) => {
            lemma_part(x);
            lemma_separator(front, ',', x);
            assert(s.skip(front.len() as int + 1) =~= x);
            assert forall|i: int| 0 <= i < s.len() implies #[trigger] s[i] != ':' && s[i] != '/' by {
                if i > front.len() {
                    assert(s[i] == x[i - front.len() - 1]);
                } else if i < front.len() {
                    assert(s[i] == front[i]);
                }
            }
        },
        None => {
            assert(s =~= front);
            lemma_separator(front, ',', front);
        },
    }
}

/// The protocol before a server is split off.
proof fn lemma_protocol(protocol: Option<Seq<char>>, rest: Seq<char>)
    requires
        !rest.contains(':'),
        rest.len() > 0,
        !is_white_space(rest[0]),
        protocol matches Some(p) ==> is_part(p) && (lower(p) == "tcp"@ || lower(p) == "np"@ || lower(p)
            == "lpc"@ || lower(p) == "admin"@),
    ensures
        ({
            let o = (match protocol {
                Some(p) => p + seq![':'],
                None => Seq::empty(),
            }) + rest;
            protocol_split(o, lower(o)) == (match protocol {
                Some(p) => Some((lower(p), lower(rest), rest)),
                None => None,
            })
        }),
{
    match protocol {
        Some(p) => {
            let o = p + seq![':'] + rest;
            let n = lower(o);
            lemma_part(p);
            assert(o =~= p + (seq![':'] + rest));
            lemma_separator(p, ':', rest);
            lemma_lower(o, ':');
            let i = p.len() as int;
            lemma_lower_concat(p + seq![':'], rest);
            lemma_lower_concat(p, seq![':']);
            assert(n.take(i) =~= lower(p));
            assert(n.skip(i + 1) =~= lower(rest));
            assert(o.skip(i + 1) =~= rest);
            law_occurrences(p, Seq::empty(), ':');
            law_occurrences(p + seq![':'], rest, ':');
            law_occurrences(rest, Seq::empty(), ':');
            assert(p.push(':') =~= p + seq![':']);
            lemma_lower_space(rest[0]);
            assert(trimmed_start(rest) == rest);
            assert(lower(rest)[0] == ascii_lower(rest[0]));
            assert(trimmed_start(lower(rest)) == lower(rest));
        },
        None => {
            let o = Seq::<char>::empty() + rest;
            assert(o =~= rest);
            law_first_occurrence(rest, ':');
            lemma_lower(rest, ':');
        },
    }
}

/// The port behind a server is split off.
proof fn lemma_parameter(
    r: DataSourceView,
    server: Seq<char>,
    instance: Option<Seq<char>>,
    port: Option<Seq<char>>,
)
    requires
        are_parts(server, instance, port),
    ensures
        ({
            let front = instance_part(server, instance);
            let s = server_part(server, instance, port);
            match port {
                None => with_parameter(r, s, lower(s)) == Ok::<_, Seq<char>>((r, lower(front), front)),
                Some(x) => if r.protocol_name.len() == 0 || r.protocol_name == "tcp"@ {
                    with_parameter(r, s, lower(s)) == Ok::<_, Seq<char>>(
                        (
                            DataSourceView {
                                protocol_name: "tcp"@,
                                protocol_parameter: x,
                                can_use_cache: false,
                                ..r
                            },
                            lower(front),
                            front,
                        ),
                    )
                } else {
                    with_parameter(r, s, lower(s)) is Err
                },
            }
        }),
{
    let front = instance_part(server, instance);
    let s = server_part(server, instance, port);
    lemma_instance_part(server, instance);
    lemma_server_part(server, instance, port);
    lemma_lower(s, ',');
    assert(lower(s).take(front.len() as int) =~= lower(front));
    lemma_lower_space(front[0]);
    lemma_lower_space(front.last());
    assert(lower(front).last() == ascii_lower(front.last()));
    lemma_not_trimmed(front);
    lemma_not_trimmed(lower(front));
    match port {
        Some(x) => {
            lemma_part(x);
            lemma_separator(x, '\\', x);
        },
        None => {
            assert(s =~= front);
        },
    }
}

/// The instance behind a server is split off.
proof fn lemma_instance(r: DataSourceView, server: Seq<char>, instance: Option<Seq<char>>)
    requires
        are_parts(server, instance, None),
    ensures
        ({
            let s = instance_part(server, instance);
            match instance {
                None => with_instance(r, s, lower(s)) == Ok::<_, Seq<char>>((r, lower(server), server)),
                Some(x) => if r.protocol_parameter.len() > 0 {
                    with_instance(r, s, lower(s)) == Ok::<_, Seq<char>>((r, lower(server), server))
                } else if lower(x) == "mssqlserver"@ {
                    with_instance(r, s, lower(s)) is Err
                } else {
                    with_instance(r, s, lower(s)) == Ok::<_, Seq<char>>(
                        (DataSourceView { instance_name: x, ..r }, lower(server), server),
                    )
                },
            }
        }),
{
    let s = instance_part(server, instance);
    lemma_instance_part(server, instance);
    lemma_lower(s, '\\');
    lemma_part(server);
    assert(lower(s).take(server.len() as int) =~= lower(server));
    lemma_not_trimmed(server);
    lemma_not_trimmed(lower(server));
    match instance {
        Some(x) => {
            lemma_part(x);
            lemma_reserved(x);
        },
        None => {
            assert(s =~= server);
        },
    }
}

/// The reserved name of an instance, in any case.
proof fn lemma_reserved(x: Seq<char>)
    ensures
        same_but_case(x, "mssqlserver"@) == (lower(x) == "mssqlserver"@),
{
    reveal_strlit("mssqlserver");
    let m = "mssqlserver"@;
    assert(lower(m) =~= m);
}

/// Whether a server is the computer itself, by its name.
pub open spec fn is_this_computer(server: Seq<char>, computer: Option<Seq<char>>) -> bool {
    ||| lower(server) == "."@
    ||| lower(server) == "(local)"@
    ||| lower(server) == "localhost"@
    ||| computer matches Some(c) && lower(server) == lower(c)
}

/// The lower case of a lower case.
proof fn lemma_lower_twice(s: Seq<char>)
    ensures
        lower(lower(s)) == lower(s),
{
    assert forall|i: int| 0 <= i < s.len() implies lower(lower(s))[i] == lower(s)[i] by {
        lemma_lower_char_twice(s[i]);
    }
    assert(lower(lower(s)) =~= lower(s));
}

/// A letter in lower case stays as it is.
proof fn lemma_lower_char_twice(c: char)
    ensures
        ascii_lower(ascii_lower(c)) == ascii_lower(c),
{
    law_ascii_lower(c);
    law_ascii_lower(ascii_lower(c));
}

/// The server of a name: `localhost` for the computer itself by TCP, and its own name by another protocol.
proof fn lemma_server(r: DataSourceView, server: Seq<char>, computer: Option<Seq<char>>)
    requires
        is_part(server),
    ensures
        with_server(r, server, lower(server), computer) == (DataSourceView {
            original_server_name: server,
            server_name: if !is_this_computer(server, computer) {
                server
            } else if r.protocol_name == "admin"@ || r.protocol_name == "tcp"@ {
                "localhost"@
            } else {
                match computer {
                    Some(c) => c,
                    None => server,
                }
            },
            ..r
        }),
{
    lemma_part(server);
    lemma_lower_twice(server);
}

/// The names that stand for something else than a server are not names of servers.
proof fn lemma_no_container(
    protocol: Option<Seq<char>>,
    server: Seq<char>,
    instance: Option<Seq<char>>,
    port: Option<Seq<char>>,
)
    requires
        are_parts(server, instance, port),
        protocol matches Some(p) ==> is_part(p) && (lower(p) == "tcp"@ || lower(p) == "np"@ || lower(p)
            == "lpc"@ || lower(p) == "admin"@),
        server[0] != '(' || lower(server) == "(local)"@,
        lower(server) != "makeitwork"@,
    ensures
        ({
            let n = lower(name_of(protocol, server, instance, port));
            &&& n.len() > 0
            &&& !is_container(n)
            &&& !is_localdb(n)
        }),
{
    let o = name_of(protocol, server, instance, port);
    let n = lower(o);
    let rest = server_part(server, instance, port);
    lemma_instance_part(server, instance);
    lemma_server_part(server, instance, port);
    lemma_part(server);
    reveal_strlit("(localdb)\\");
    reveal_strlit("(localdb)/");
    reveal_strlit("(localdb)");
    reveal_strlit("(local)");
    reveal_strlit("makeitwork");
    reveal_strlit("localdb://");
    reveal_strlit("tcp");
    reveal_strlit("np");
    reveal_strlit("lpc");
    reveal_strlit("admin");
    lemma_lower(o, '/');
    lemma_lower(o, ':');
    lemma_lower(o, ',');
    lemma_lower(o, '\\');
    assert(!o.contains('/')) by {
        if o.contains('/') {
            let i = o.index_of('/');
            assert(o[i] == '/');
            match protocol {
                Some(p) => {
                    if i > p.len() {
                        assert(rest[i - p.len() - 1] == '/');
                    } else if i < p.len() {
                        assert(p[i] == '/');
                    }
                },
                None => {
                    assert(rest[i] == '/');
                },
            }
        }
    }
    if starts(n, "localdb://"@) {
        assert(n[8] == n.take(10)[8]);
        assert(n.contains('/'));
    }
    match protocol {
        Some(p) => {
            assert(n[0] == lower(p)[0]);
            if starts(n, "(localdb)\\"@) {
                assert(n[0] == n.take(10)[0]);
            }
            if starts(n, "(localdb)/"@) {
                assert(n[0] == n.take(10)[0]);
            }
            assert(o[p.len() as int] == ':');
            assert(o.contains(':'));
            assert(n.contains(':'));
            if n == "makeitwork"@ {
                let i = n.index_of(':');
                assert(n[i] == ':');
            }
        },
        None => {
            assert(o =~= rest);
            assert(n[0] == ascii_lower(server[0]));
            law_ascii_lower(server[0]);
            if lower(server) == "(local)"@ {
                assert(rest[6] == server[6]) by {
                    assert(instance_part(server, instance)[6] == server[6]);
                    assert(rest.take(instance_part(server, instance).len() as int)[6] == rest[6]);
                }
                assert(n[6] == lower(server)[6]);
                assert(n[6] == ')');
                if starts(n, "(localdb)\\"@) {
                    assert(n[6] == n.take(10)[6]);
                }
                if starts(n, "(localdb)/"@) {
                    assert(n[6] == n.take(10)[6]);
                }
            } else {
                if starts(n, "(localdb)\\"@) {
                    assert(n[0] == n.take(10)[0]);
                }
                if starts(n, "(localdb)/"@) {
                    assert(n[0] == n.take(10)[0]);
                }
            }
            if n == "makeitwork"@ {
                if port is Some {
                    assert(rest[instance_part(server, instance).len() as int] == ',');
                    assert(o.contains(','));
                    let i = n.index_of(',');
                    assert(n[i] == ',');
                } else if instance is Some {
                    assert(rest =~= instance_part(server, instance));
                    assert(rest[server.len() as int] == '\\');
                    assert(o.contains('\\'));
                    let i = n.index_of('\\');
                    assert(n[i] == '\\');
                } else {
                    assert(o =~= server);
                }
            }
        },
    }
}

/// The parts that are read of a name, before the server is looked at.
pub open spec fn parts_read(
    protocol: Option<Seq<char>>,
    instance: Option<Seq<char>>,
    port: Option<Seq<char>>,
    parallel: bool,
) -> DataSourceView {
    DataSourceView {
        protocol_name: match (protocol, port) {
            (_, Some(_)) => "tcp"@,
            (Some(p), None) => lower(p),
            _ => Seq::empty(),
        },
        protocol_parameter: match port {
            Some(x) => x,
            None => Seq::empty(),
        },
        instance_name: match (instance, port) {
            (Some(x), None) => x,
            _ => Seq::empty(),
        },
        can_use_cache: port is None,
        ..blank(parallel)
    }
}

/// A name is read part by part.
#[verifier::rlimit(40)]
#[verifier::spinoff_prover]
proof fn lemma_name_is_read(
    protocol: Option<Seq<char>>,
    server: Seq<char>,
    instance: Option<Seq<char>>,
    port: Option<Seq<char>>,
    parallel: bool,
    platform: Platform,
    computer: Option<Seq<char>>,
)
    requires
        are_parts(server, instance, port),
        protocol matches Some(p) ==> is_part(p) && (lower(p) == "tcp"@ || lower(p) == "np"@ || lower(p)
            == "lpc"@ || lower(p) == "admin"@),
        server[0] != '(' || lower(server) == "(local)"@,
        lower(server) != "makeitwork"@,
    ensures
        ({
            let name = name_of(protocol, server, instance, port);
            let r = source_of(name, lower(name), parallel, platform, computer);
            if port is Some && (protocol matches Some(p) && lower(p) != "tcp"@) {
                r is Err
            } else if port is None && (instance matches Some(x) && lower(x) == "mssqlserver"@) {
                r is Err
            } else {
                match validated(
                    with_server(
                        parts_read(protocol, instance, port, parallel),
                        server,
                        lower(server),
                        computer,
                    ),
                    platform,
                    computer,
                ) {
                    Err(_) => r is Err,
                    Ok(v) => r == Ok::<DataSourceView, Seq<char>>(with_alias(v)),
                }
            }
        }),
{
    let name = name_of(protocol, server, instance, port);
    let n = lower(name);
    let rest = server_part(server, instance, port);
    let front = instance_part(server, instance);
    let r = match protocol {
        Some(p) => DataSourceView { protocol_name: lower(p), ..blank(parallel) },
        None => blank(parallel),
    };
    lemma_literals();
    lemma_no_container(protocol, server, instance, port);
    lemma_first_step(protocol, server, instance, port);
    assert(source_of(name, n, parallel, platform, computer) == (match with_parameter(
        r,
        rest,
        lower(rest),
    ) {
        Err(t) => Err(t),
        Ok((r2, n2, o2)) => match with_instance(r2, o2, n2) {
            Err(t) => Err(t),
            Ok((r3, n3, o3)) => match validated(
                with_server(r3, o3, n3, computer),
                platform,
                computer,
            ) {
                Err(t) => Err(t),
                Ok(r4) => Ok(with_alias(r4)),
            },
        },
    }));
    lemma_parameter(r, server, instance, port);
    match with_parameter(r, rest, lower(rest)) {
        Ok((r2, n2, o2)) => {
            lemma_instance(r2, server, instance);
            assert(n2 == lower(front) && o2 == front);
            match with_instance(r2, o2, n2) {
                Ok((r3, _, _)) => {
                    assert(r3 == parts_read(protocol, instance, port, parallel));
                },
                Err(_) => {},
            }
        },
        Err(_) => {},
    }
}

/// The protocol is read first, and what is behind it is no path.
proof fn lemma_first_step(
    protocol: Option<Seq<char>>,
    server: Seq<char>,
    instance: Option<Seq<char>>,
    port: Option<Seq<char>>,
)
    requires
        are_parts(server, instance, port),
        protocol matches Some(p) ==> is_part(p) && (lower(p) == "tcp"@ || lower(p) == "np"@ || lower(p)
            == "lpc"@ || lower(p) == "admin"@),
    ensures
        ({
            let name = name_of(protocol, server, instance, port);
            let rest = server_part(server, instance, port);
            &&& protocol_split(name, lower(name)) == (match protocol {
                Some(p) => Some((lower(p), lower(rest), rest)),
                None => None,
            })
            &&& protocol is None ==> name == rest
            &&& !starts(lower(rest), "\\\\"@)
        }),
{
    let rest = server_part(server, instance, port);
    lemma_literals();
    lemma_instance_part(server, instance);
    lemma_server_part(server, instance, port);
    lemma_part(server);
    lemma_protocol(protocol, rest);
    if protocol is None {
        assert(name_of(protocol, server, instance, port) =~= rest);
    }
    if starts(lower(rest), "\\\\"@) {
        assert(lower(rest)[0] == lower(rest).take(2)[0]);
        lemma_lower_char(server[0], '\\');
    }
}

/// The texts of the protocols and of the separator.
proof fn lemma_literals()
    ensures
        "tcp"@.len() == 3,
        "np"@.len() == 2,
        "lpc"@.len() == 3,
        "admin"@.len() == 5,
        "tcp"@ != "lpc"@,
        "\\"@ == seq!['\\'],
        "\\\\"@ == seq!['\\', '\\'],
{
    reveal_strlit("tcp");
    reveal_strlit("np");
    reveal_strlit("lpc");
    reveal_strlit("admin");
    reveal_strlit("\\");
    reveal_strlit("\\\\");
    assert("tcp"@[0] != "lpc"@[0]);
    assert("\\"@ =~= seq!['\\']);
    assert("\\\\"@ =~= seq!['\\', '\\']);
}

/// What the name of a data source means. Of its parts, in any case of letters:
/// a port asks for TCP, and takes the place of an instance;
/// another protocol with a port is refused, as is the instance `MSSQLSERVER`, a pipe or shared memory
/// outside Windows, shared memory of another computer, and any of these or the administrator's connection
/// to all addresses at once;
/// the names of the computer itself are `localhost` by TCP, and the computer's own name otherwise;
/// the alias is the server and the instance; and only a name that a lookup may stand behind is cached.
#[verifier::rlimit(60)]
#[verifier::spinoff_prover]
pub proof fn law_names(
    protocol: Option<Seq<char>>,
    server: Seq<char>,
    instance: Option<Seq<char>>,
    port: Option<Seq<char>>,
    parallel: bool,
    platform: Platform,
    computer: Option<Seq<char>>,
)
    requires
        are_parts(server, instance, port),
        protocol matches Some(p) ==> is_part(p) && (lower(p) == "tcp"@ || lower(p) == "np"@ || lower(p)
            == "lpc"@ || lower(p) == "admin"@),
        server[0] != '(' || lower(server) == "(local)"@,
        lower(server) != "makeitwork"@,
    ensures
        ({
            let name = name_of(protocol, server, instance, port);
            let p = match protocol {
                Some(p) => lower(p),
                None => Seq::empty(),
            };
            let r = source_of(name, lower(name), parallel, platform, computer);
            let here = server == "."@ || server == "(local)"@ || lower(server) == "localhost"@ || (
            computer matches Some(c) && lower(server) == lower(c));
            let refused = (port is Some && p != "tcp"@ && p.len() > 0) || (port is None && (
            instance matches Some(x) && lower(x) == "mssqlserver"@)) || (platform != Platform::Windows && (
            p == "np"@ || p == "lpc"@)) || (p == "lpc"@ && !here) || (parallel && (p == "np"@ || p == "lpc"@
                || p == "admin"@));
            &&& (r is Err) == refused
            &&& r matches Ok(v) ==> {
                &&& v.original_server_name == server
                &&& v.protocol_name == (if port is Some || (parallel && p.len() == 0) {
                    "tcp"@
                } else {
                    p
                })
                &&& v.protocol_parameter == (match port {
                    Some(x) => x,
                    None => Seq::empty(),
                })
                &&& v.instance_name == (match (instance, port) {
                    (Some(x), None) => x,
                    _ => Seq::empty(),
                })
                &&& v.server_name == (if !is_this_computer(server, computer) {
                    server
                } else if port is Some || p == "tcp"@ || p == "admin"@ {
                    "localhost"@
                } else {
                    match computer {
                        Some(c) => c,
                        None => server,
                    }
                })
                &&& v.alias == (match (instance, port) {
                    (Some(x), None) => v.server_name + seq!['\\'] + x,
                    _ => v.server_name,
                })
                &&& v.can_use_cache == (port is None && !parallel && p != "admin"@ && !(p == "lpc"@
                    && instance is Some))
                &&& v.standard_instance_name
                &&& v.parallel_connect == parallel
            }
        }),
{
    lemma_literals();
    lemma_name_is_read(protocol, server, instance, port, parallel, platform, computer);
    lemma_server(parts_read(protocol, instance, port, parallel), server, computer);
    lemma_here(server, computer);
}

/// The names of the computer itself, in any case of letters.
proof fn lemma_here(server: Seq<char>, computer: Option<Seq<char>>)
    ensures
        is_local_name(server, computer) == (server == "."@ || server == "(local)"@ || lower(server)
            == "localhost"@ || (computer matches Some(c) && lower(server) == lower(c))),
{
    reveal_strlit("localhost");
    assert(lower("localhost"@) =~= "localhost"@);
    match computer {
        Some(c) => {
            if same_but_case(server, c) {
                assert(lower(server) =~= lower(c));
            }
        },
        None => {},
    }
}

/// A text as a number of a port: its digits, perhaps behind a plus sign, as a number below 65536.
pub open spec fn names_port(s: Seq<char>, port: u16) -> bool {
    ||| is_numeral(s) && numeral(s) == port
    ||| s.len() > 0 && s[0] == '+' && is_numeral(s.skip(1)) && numeral(s.skip(1)) == port
}

/// The port of a parameter is the number that it is, and 1433 where it is none.
proof fn lemma_port(v: DataSourceView)
    ensures
        names_port(v.protocol_parameter, port_of(v)) || (port_of(v) == 1433 && forall|n: u16|
            !#[trigger] names_port(v.protocol_parameter, n)),
{
    let s = v.protocol_parameter;
    law_number_of(s);
    if s.len() > 0 && s[0] == '+' && is_numeral(s) {
        assert(48 <= s[0] as u32);
    }
}

/// Where a plan looks into the cache it does so first, and the rest of the plan stands behind.
pub open spec fn after_cache(v: DataSourceView, chain: Seq<StepView>) -> Seq<StepView> {
    if v.can_use_cache {
        chain.skip(1)
    } else {
        chain
    }
}

/// A plan begins with a look into the cache, under the alias, just where the data source may be cached.
pub proof fn law_cache_is_first(
    v: DataSourceView,
    platform: Platform,
    computer: Option<Seq<char>>,
    timeout: u64,
)
    ensures
        ({
            let chain = chain_of(v, platform, computer, timeout);
            &&& v.can_use_cache == (chain.len() > 0 && (chain[0] matches StepView::One(
                ActionView::CheckCache(_),
            )))
            &&& v.can_use_cache ==> chain[0] == StepView::One(ActionView::CheckCache(v.alias))
        }),
{
    lemma_protocol_names();
}

/// A data source by TCP with a parameter, or without an instance, is connected to at once: to the port that
/// its parameter is the number of, and to 1433 where the parameter is no number of a port.
pub proof fn law_tcp_plan(
    v: DataSourceView,
    platform: Platform,
    computer: Option<Seq<char>>,
    timeout: u64,
)
    requires
        v.protocol_name == "tcp"@,
        v.protocol_parameter.len() > 0 || v.instance_name.len() == 0,
    ensures
        ({
            let rest = after_cache(v, chain_of(v, platform, computer, timeout));
            &&& rest.len() == 1
            &&& rest[0] matches StepView::One(ActionView::ConnectTcp(host, port, limit)) && host
                == v.server_name && limit == timeout && (names_port(v.protocol_parameter, port) || (port
                == 1433 && forall|n: u16| !#[trigger] names_port(v.protocol_parameter, n)))
        }),
{
    lemma_protocol_names();
    lemma_port(v);
    let port = port_of(v);
    assert(after_cache(v, chain_of(v, platform, computer, timeout)) =~= seq![
        StepView::One(ActionView::ConnectTcp(v.server_name, port, timeout)),
    ]);
}

/// The number of a port and its digits name each other: no two numbers have the same digits.
pub proof fn law_one_port(s: Seq<char>, a: u16, b: u16)
    requires
        names_port(s, a),
        names_port(s, b),
    ensures
        a == b,
{
    if s[0] == '+' && is_numeral(s) {
        assert(48 <= s[0] as u32);
    }
}

/// A data source with an instance and no parameter is looked up at the server: the port of the answer is
/// put into the cache where that is used, and connected to.
pub proof fn law_instance_plan(
    v: DataSourceView,
    platform: Platform,
    computer: Option<Seq<char>>,
    timeout: u64,
)
    requires
        v.instance_name.len() > 0,
        v.protocol_parameter.len() == 0,
        v.protocol_name != "localdb"@,
        v.protocol_name != "linux-localdb"@,
    ensures
        after_cache(v, chain_of(v, platform, computer, timeout)) == (if v.can_use_cache {
            seq![
                StepView::One(ActionView::QuerySsrp(v.server_name, v.instance_name)),
                StepView::One(ActionView::UpdateCache(v.alias, 0)),
                StepView::One(
                    ActionView::ConnectTcpFromSlot(v.server_name, ResultSlot::ResolvedPort, timeout),
                ),
            ]
        } else {
            seq![
                StepView::One(ActionView::QuerySsrp(v.server_name, v.instance_name)),
                StepView::One(
                    ActionView::ConnectTcpFromSlot(v.server_name, ResultSlot::ResolvedPort, timeout),
                ),
            ]
        }),
{
    let rest = after_cache(v, chain_of(v, platform, computer, timeout));
    if v.can_use_cache {
        assert(rest =~= seq![
            StepView::One(ActionView::QuerySsrp(v.server_name, v.instance_name)),
            StepView::One(ActionView::UpdateCache(v.alias, 0)),
            StepView::One(
                ActionView::ConnectTcpFromSlot(v.server_name, ResultSlot::ResolvedPort, timeout),
            ),
        ]);
    } else {
        assert(rest =~= seq![
            StepView::One(ActionView::QuerySsrp(v.server_name, v.instance_name)),
            StepView::One(
                ActionView::ConnectTcpFromSlot(v.server_name, ResultSlot::ResolvedPort, timeout),
            ),
        ]);
    }
}

/// The other protocols, without an instance to look up: a pipe is the parameter, or the one of the server's
/// default instance; shared memory is of the instance, or of `MSSQLSERVER`; the administrator's connection
/// is to the server, on port 1434.
pub proof fn law_protocol_plans(
    v: DataSourceView,
    platform: Platform,
    computer: Option<Seq<char>>,
    timeout: u64,
)
    requires
        v.protocol_parameter.len() > 0 || v.instance_name.len() == 0,
    ensures
        ({
            let rest = after_cache(v, chain_of(v, platform, computer, timeout));
            &&& v.protocol_name == "np"@ ==> rest == seq![
                StepView::One(
                    ActionView::ConnectNamedPipe(
                        if v.protocol_parameter.len() > 0 {
                            v.protocol_parameter
                        } else {
                            seq!['\\', '\\'] + v.server_name + "\\pipe\\sql\\query"@
                        },
                        timeout,
                    ),
                ),
            ]
            &&& v.protocol_name == "lpc"@ && platform == Platform::Windows ==> rest == seq![
                StepView::One(
                    ActionView::ConnectSharedMemory(
                        if v.instance_name.len() > 0 {
                            v.instance_name
                        } else {
                            "MSSQLSERVER"@
                        },
                        timeout,
                    ),
                ),
            ]
            &&& v.protocol_name == "admin"@ ==> rest == seq![
                StepView::One(ActionView::ConnectDac(v.server_name, timeout)),
            ]
        }),
        way_of(ActionView::ConnectDac(v.server_name, timeout)) == Some(
            (TransportView::Tcp(v.server_name, 1434, None), timeout),
        ),
{
    lemma_protocol_names();
    lemma_literals();
    let rest = after_cache(v, chain_of(v, platform, computer, timeout));
    if v.protocol_name == "np"@ {
        assert(rest =~= seq![StepView::One(ActionView::ConnectNamedPipe(pipe_of(v), timeout))]);
    } else if v.protocol_name == "lpc"@ && platform == Platform::Windows {
        assert(rest =~= seq![rest[0]]);
    } else if v.protocol_name == "admin"@ {
        assert(rest =~= seq![StepView::One(ActionView::ConnectDac(v.server_name, timeout))]);
    }
}

/// A data source without a protocol and without an instance to look up is tried in several ways, each with
/// the same limit of time: on Windows by shared memory where the server is the computer itself, by TCP to
/// port 1433, and by the pipe of its default instance; elsewhere by TCP alone. To all addresses at once it is
/// TCP as well.
pub proof fn law_automatic_plan(
    v: DataSourceView,
    platform: Platform,
    computer: Option<Seq<char>>,
    timeout: u64,
)
    requires
        v.protocol_name.len() == 0,
        v.instance_name.len() == 0,
    ensures
        ({
            let rest = after_cache(v, chain_of(v, platform, computer, timeout));
            let name = v.original_server_name;
            let here = name == "."@ || name == "(local)"@ || lower(name) == "localhost"@ || name
                == "127.0.0.1"@ || name == "::1"@ || (computer matches Some(c) && lower(name) == lower(c));
            let tcp = ActionView::ConnectTcp(v.server_name, 1433, timeout);
            let pipe = ActionView::ConnectNamedPipe(
                seq!['\\', '\\'] + v.server_name + "\\pipe\\sql\\query"@,
                timeout,
            );
            let memory = ActionView::ConnectSharedMemory("MSSQLSERVER"@, timeout);
            if v.parallel_connect {
                rest.len() == 1 && (rest[0] matches StepView::One(
                    ActionView::ConnectTcpParallel(host, port, limit),
                ) && host == v.server_name && limit == timeout && (names_port(v.protocol_parameter, port) || (
                port == 1433 && forall|n: u16| !#[trigger] names_port(v.protocol_parameter, n))))
            } else if platform != Platform::Windows {
                rest == seq![StepView::Try(seq![tcp], timeout)]
            } else if here {
                rest == seq![StepView::Try(seq![memory, tcp, pipe], timeout)]
            } else {
                rest == seq![StepView::Try(seq![tcp, pipe], timeout)]
            }
        }),
{
    lemma_protocol_names();
    lemma_literals();
    lemma_port(v);
    lemma_here(v.original_server_name, computer);
    let rest = after_cache(v, chain_of(v, platform, computer, timeout));
    let tries = waterfall(v.server_name, ParsedDataSource::local(v, computer), platform, timeout);
    let tcp = ActionView::ConnectTcp(v.server_name, 1433, timeout);
    let pipe = ActionView::ConnectNamedPipe(
        seq!['\\', '\\'] + v.server_name + "\\pipe\\sql\\query"@,
        timeout,
    );
    let memory = ActionView::ConnectSharedMemory("MSSQLSERVER"@, timeout);
    if !v.parallel_connect {
        assert(rest =~= seq![StepView::Try(tries, timeout)]);
        if platform != Platform::Windows {
            assert(tries =~= seq![tcp]);
        } else if ParsedDataSource::local(v, computer) {
            assert(tries =~= seq![memory, tcp, pipe]);
        } else {
            assert(tries =~= seq![tcp, pipe]);
        }
    } else {
        assert(rest =~= seq![
            StepView::One(ActionView::ConnectTcpParallel(v.server_name, port_of(v), timeout)),
        ]);
    }
}

/// A LocalDB is looked up by its instance, and connected to by the pipe of the answer; a container in its
/// place is connected to by TCP.
pub proof fn law_localdb_plan(
    v: DataSourceView,
    computer: Option<Seq<char>>,
    timeout: u64,
)
    ensures
        v.protocol_name == "localdb"@ ==> after_cache(
            v,
            chain_of(v, Platform::Windows, computer, timeout),
        ) == seq![
            StepView::One(ActionView::ResolveLocalDb(v.instance_name)),
            StepView::One(
                ActionView::ConnectNamedPipeFromSlot(ResultSlot::ResolvedPipePath, timeout),
            ),
        ],
        v.protocol_name == "linux-localdb"@ ==> after_cache(
            v,
            chain_of(v, Platform::OtherWithLocalDb, computer, timeout),
        ) == seq![StepView::One(ActionView::ConnectTcp(v.server_name, 0, timeout))],
{
    let rest = after_cache(v, chain_of(v, Platform::Windows, computer, timeout));
    if v.protocol_name == "localdb"@ {
        assert(rest =~= seq![
            StepView::One(ActionView::ResolveLocalDb(v.instance_name)),
            StepView::One(
                ActionView::ConnectNamedPipeFromSlot(ResultSlot::ResolvedPipePath, timeout),
            ),
        ]);
    }
    let other = after_cache(v, chain_of(v, Platform::OtherWithLocalDb, computer, timeout));
    if v.protocol_name == "linux-localdb"@ {
        assert(other =~= seq![StepView::One(ActionView::ConnectTcp(v.server_name, 0, timeout))]);
    }
}

/// The names of protocols differ.
proof fn lemma_protocol_names()
    ensures
        "tcp"@.len() == 3,
        "np"@.len() == 2,
        "lpc"@.len() == 3,
        "admin"@.len() == 5,
        "localdb"@.len() == 7,
        "linux-localdb"@.len() == 13,
        "tcp"@ != "lpc"@,
{
    lemma_literals();
    reveal_strlit("localdb");
    reveal_strlit("linux-localdb");
}

/// The ways of a plan are those of its actions, one behind the other, each once.
pub proof fn law_ways(a: Seq<StepView>, b: Seq<StepView>)
    ensures
        ways(a + b) == ways(a) + ways(b),
    decreases b.len(),
{
    if b.len() == 0 {
        assert(a + b =~= a);
        assert(ways(a) + ways(b) =~= ways(a));
    } else {
        law_ways(a, b.drop_last());
        assert((a + b).drop_last() =~= a + b.drop_last());
        assert((a + b).last() == b.last());
        assert(ways(a + b) =~= ways(a) + ways(b));
    }
}

/// What each action is a way to: TCP to its host and port, the pipe of its path, the shared memory of its
/// instance, and nothing where something must be looked up first.
pub proof fn law_way(host: Seq<char>, port: u16, slot: ResultSlot, t: u64)
    ensures
        ways(seq![StepView::One(ActionView::ConnectTcp(host, port, t))]) == seq![
            (TransportView::Tcp(host, port, None), t),
        ],
        ways(seq![StepView::One(ActionView::ConnectTcpParallel(host, port, t))]) == seq![
            (TransportView::Tcp(host, port, None), t),
        ],
        ways(seq![StepView::One(ActionView::ConnectNamedPipe(host, t))]) == seq![
            (TransportView::NamedPipe(host), t),
        ],
        ways(seq![StepView::One(ActionView::ConnectSharedMemory(host, t))]) == seq![
            (TransportView::SharedMemory(host), t),
        ],
        ways(seq![StepView::One(ActionView::ConnectDac(host, t))]) == seq![
            (TransportView::Tcp(host, 1434, None), t),
        ],
        ways(seq![StepView::One(ActionView::ConnectTcpFromSlot(host, slot, t))]).len() == 0,
        ways(seq![StepView::One(ActionView::ConnectNamedPipeFromSlot(slot, t))]).len() == 0,
        ways(seq![StepView::One(ActionView::CheckCache(host))]).len() == 0,
        ways(seq![StepView::One(ActionView::UpdateCache(host, port))]).len() == 0,
        ways(seq![StepView::One(ActionView::QuerySsrp(host, host))]).len() == 0,
        ways(seq![StepView::One(ActionView::ResolveLocalDb(host))]).len() == 0,
{
    reveal_with_fuel(ways, 2);
    assert forall|a: StepView| #[trigger] seq![a].drop_last() == Seq::<StepView>::empty() by {
        assert(seq![a].drop_last() =~= Seq::<StepView>::empty());
    }
}

/// A path of a pipe is no other name.
proof fn lemma_path(server: Seq<char>, tail: Seq<char>)
    requires
        is_part(server),
        tail.len() > 0,
        tail[0] == '\\',
        !tail.contains(':'),
    ensures
        ({
            let path = seq!['\\', '\\'] + server + tail;
            let n = lower(path);
            &&& n.len() > 0
            &&& !is_container(n)
            &&& !is_localdb(n)
            &&& protocol_split(path, n) is None
            &&& starts(n, "\\\\"@)
            &&& pipe_split(path) == Ok::<(Seq<char>, Seq<char>), Seq<char>>((server, tail))
        }),
{
    let path = seq!['\\', '\\'] + server + tail;
    let n = lower(path);
    lemma_literals();
    reveal_strlit("(localdb)\\");
    reveal_strlit("(localdb)/");
    reveal_strlit("(localdb)");
    reveal_strlit("makeitwork");
    reveal_strlit("localdb://");
    lemma_part(server);
    lemma_lower(path, '\\');
    lemma_lower_at(path, '\\');
    lemma_lower(path, ':');
    assert(path[0] == '\\' && path[1] == '\\');
    assert(n[0] == '\\' && n[1] == '\\');
    assert(n.take(2) =~= seq!['\\', '\\']);
    assert(path.take(2) =~= seq!['\\', '\\']);
    if starts(n, "(localdb)\\"@) {
        assert(n[0] == n.take(10)[0]);
    }
    if starts(n, "(localdb)/"@) {
        assert(n[0] == n.take(10)[0]);
    }
    if starts(n, "localdb://"@) {
        assert(n[0] == n.take(10)[0]);
    }
    assert(!path.contains(':')) by {
        if path.contains(':') {
            let i = path.index_of(':');
            assert(path[i] == ':');
            if i >= server.len() + 2 {
                assert(tail[i - server.len() - 2] == ':');
            } else if i >= 2 {
                assert(server[i - 2] == ':');
            }
        }
    }
    law_first_occurrence(path, ':');
    let rest = path.skip(2);
    assert(rest =~= server + tail);
    assert(tail =~= seq!['\\'] + tail.skip(1));
    lemma_separator(server, '\\', tail.skip(1));
    assert(rest.take(server.len() as int) =~= server);
    assert(rest.skip(server.len() as int) =~= tail);
}

/// A path of a pipe is a data source of its own, on Windows and to one address at a time: it is connected to
/// as it stands and is never cached, its server is `localhost` where it is `.`, and the pipe of an instance
/// names the instance.
pub proof fn law_pipe_names(
    server: Seq<char>,
    tail: Seq<char>,
    instance: Seq<char>,
    parallel: bool,
    platform: Platform,
    computer: Option<Seq<char>>,
)
    requires
        is_part(server),
        is_part(instance),
        tail == "\\pipe\\sql\\query"@ || tail == "\\pipe\\MSSQL$"@ + instance + "\\sql\\query"@,
    ensures
        ({
            let path = seq!['\\', '\\'] + server + tail;
            let r = source_of(path, lower(path), parallel, platform, computer);
            &&& (r is Ok) == (platform == Platform::Windows && !parallel)
            &&& r matches Ok(v) ==> {
                &&& v.protocol_name == "np"@
                &&& v.protocol_parameter == path
                &&& v.original_server_name == server
                &&& v.server_name == (if server == "."@ {
                    "localhost"@
                } else {
                    server
                })
                &&& v.instance_name == (if tail == "\\pipe\\sql\\query"@ {
                    Seq::empty()
                } else {
                    instance
                })
                &&& v.standard_instance_name
                &&& !v.can_use_cache
            }
        }),
{
    reveal_strlit("\\pipe\\sql\\query");
    reveal_strlit("\\pipe\\MSSQL$");
    reveal_strlit("\\pipe\\mssql$");
    reveal_strlit("\\sql\\query");
    lemma_part(instance);
    assert(!tail.contains(':')) by {
        if tail.contains(':') {
            let i = tail.index_of(':');
            assert(tail[i] == ':');
            if tail != "\\pipe\\sql\\query"@ && 12 <= i < 12 + instance.len() {
                assert(instance[i - 12] == ':');
            }
        }
    }
    lemma_path(server, tail);
    lemma_literals();
    let path = seq!['\\', '\\'] + server + tail;
    if tail != "\\pipe\\sql\\query"@ {
        assert(tail.take(12) =~= "\\pipe\\MSSQL$"@);
        assert(lower("\\pipe\\MSSQL$"@) =~= lower("\\pipe\\mssql$"@));
        assert(tail.skip(tail.len() - 10) =~= "\\sql\\query"@);
        assert(tail.subrange(12, tail.len() - 10) =~= instance);
    }
    assert(pipe_instance(tail) == Some(
        (
            if tail == "\\pipe\\sql\\query"@ {
                Seq::empty()
            } else {
                instance
            },
            true,
        ),
    ));
}

/// Any other pipe is a data source by its path, whose instance is not a usual one; a path that is not that of
/// a pipe is refused.
pub proof fn law_other_pipe_names(
    server: Seq<char>,
    pipe: Seq<char>,
    platform: Platform,
    computer: Option<Seq<char>>,
)
    requires
        is_part(server),
        is_part(pipe),
    ensures
        ({
            let path = seq!['\\', '\\'] + server + ("\\pipe\\"@ + pipe);
            let r = source_of(path, lower(path), false, platform, computer);
            &&& (r is Ok) == (platform == Platform::Windows)
            &&& r matches Ok(v) ==> v.protocol_name == "np"@ && v.protocol_parameter == path
                && v.instance_name == "pipe"@ + pipe && !v.standard_instance_name && !v.can_use_cache
        }),
        ({
            let path = seq!['\\', '\\'] + server + (seq!['\\'] + pipe);
            source_of(path, lower(path), false, platform, computer) is Err
        }),
{
    reveal_strlit("\\pipe\\sql\\query");
    reveal_strlit("\\pipe\\mssql$");
    reveal_strlit("\\sql\\query");
    reveal_strlit("\\pipe\\");
    lemma_part(pipe);
    lemma_literals();
    let tail = "\\pipe\\"@ + pipe;
    let other = seq!['\\'] + pipe;
    assert(!tail.contains(':')) by {
        if tail.contains(':') {
            let i = tail.index_of(':');
            assert(tail[i] == ':');
            if i >= 6 {
                assert(pipe[i - 6] == ':');
            }
        }
    }
    assert(!other.contains(':')) by {
        if other.contains(':') {
            let i = other.index_of(':');
            assert(other[i] == ':');
            if i >= 1 {
                assert(pipe[i - 1] == ':');
            }
        }
    }
    lemma_path(server, tail);
    lemma_path(server, other);
    assert(tail.take(6) =~= "\\pipe\\"@);
    assert(tail.skip(6) =~= pipe);
    if tail == "\\pipe\\sql\\query"@ {
        assert(tail[9] == '\\');
        assert(pipe[3] == '\\');
    }
    lemma_no_tail(tail, pipe);
    if other == "\\pipe\\sql\\query"@ {
        assert(other[5] == pipe[4]);
    }
    assert(other.skip(1) =~= pipe);
    lemma_no_tail(other, pipe);
    if starts(other, "\\pipe\\"@) {
        assert(other[5] == other.take(6)[5]);
        assert(other[5] == pipe[4]);
    }
}

/// A pipe whose last part has no backslash is not that of an instance.
proof fn lemma_no_tail(tail: Seq<char>, pipe: Seq<char>)
    requires
        is_part(pipe),
        tail.len() > pipe.len(),
        tail.skip(tail.len() - pipe.len()) == pipe,
    ensures
        tail.len() >= 22 && tail.len() - pipe.len() <= 6 ==> !same_but_case(
            tail.skip(tail.len() - 10),
            "\\sql\\query"@,
        ),
{
    reveal_strlit("\\sql\\query");
    lemma_part(pipe);
    if tail.len() >= 22 && tail.len() - pipe.len() <= 6 {
        let end = tail.skip(tail.len() - 10);
        assert(end[0] == tail.skip(tail.len() - pipe.len())[pipe.len() - 10]);
        assert(end[0] == pipe[pipe.len() - 10]);
        assert(lower("\\sql\\query"@)[0] == ascii_lower('\\'));
        lemma_lower_char('\\', '\\');
        lemma_lower_char(end[0], '\\');
        if same_but_case(end, "\\sql\\query"@) {
            assert(lower(end)[0] == lower("\\sql\\query"@)[0]);
        }
    }
}

/// A name of a LocalDB: the instance behind `(localdb)` and a separator, as it stands. It is one on Windows,
/// a container where one stands in its place, and refused elsewhere.
pub proof fn law_localdb_names(
    front: Seq<char>,
    instance: Seq<char>,
    parallel: bool,
    platform: Platform,
    computer: Option<Seq<char>>,
)
    requires
        lower(front) == "(localdb)\\"@ || lower(front) == "(localdb)/"@,
        is_part(instance),
    ensures
        ({
            let name = front + instance;
            let r = source_of(name, lower(name), parallel, platform, computer);
            &&& (r is Err) == (platform == Platform::Other)
            &&& r matches Ok(v) ==> {
                &&& v.server_name == name && v.original_server_name == name && v.alias == name
                &&& !v.can_use_cache
                &&& platform == Platform::Windows ==> v.protocol_name == "localdb"@ && v.instance_name
                    == instance && v.parallel_connect == parallel && v.protocol_parameter.len() == 0
                &&& platform == Platform::OtherWithLocalDb ==> v.protocol_name == "linux-localdb"@
                    && v.instance_name.len() == 0 && !v.parallel_connect
            }
        }),
{
    let name = front + instance;
    reveal_strlit("(localdb)\\");
    reveal_strlit("(localdb)/");
    lemma_part(instance);
    lemma_not_trimmed(instance);
    assert(front.len() == 10) by {
        assert(lower(front).len() == front.len());
    }
    lemma_lower_concat(front, instance);
    assert(lower(name).take(10) =~= lower(front));
    assert(name.skip(10) =~= instance);
}

/// An empty name is refused.
pub proof fn law_empty_name(parallel: bool, platform: Platform, computer: Option<Seq<char>>)
    ensures
        source_of(Seq::empty(), Seq::empty(), parallel, platform, computer) is Err,
{
}

/// A plan asks the service of the server for a port just where an instance is looked up, and resolves a
/// LocalDB just where the data source is one, by its instance.
pub proof fn law_lookups(
    v: DataSourceView,
    platform: Platform,
    computer: Option<Seq<char>>,
    timeout: u64,
)
    ensures
        ({
            let chain = chain_of(v, platform, computer, timeout);
            let localdb = platform == Platform::Windows && v.protocol_name == "localdb"@;
            let container = platform == Platform::OtherWithLocalDb && v.protocol_name == "linux-localdb"@;
            &&& asks_browser(chain) == (!localdb && !container && v.instance_name.len() > 0
                && v.protocol_parameter.len() == 0)
            &&& is_localdb_of(
                chain,
                if localdb {
                    Some(v.instance_name)
                } else {
                    None
                },
            )
        }),
{
    lemma_protocol_names();
    let chain = chain_of(v, platform, computer, timeout);
    let k: int = if v.can_use_cache {
        1
    } else {
        0
    };
    if platform == Platform::Windows && v.protocol_name == "localdb"@ {
        assert(chain[k] == StepView::One(ActionView::ResolveLocalDb(v.instance_name)));
    } else if platform == Platform::OtherWithLocalDb && v.protocol_name == "linux-localdb"@ {
    } else if v.instance_name.len() > 0 && v.protocol_parameter.len() == 0 {
        assert(chain[k] == StepView::One(ActionView::QuerySsrp(v.server_name, v.instance_name)));
    }
}

/// What is told of a plan: the server and the instance behind a backslash, or the server alone.
pub proof fn law_description_of_plan(m: ConnectionMetadata, v: DataSourceView, timeout: u64)
    requires
        describes(m, v, timeout),
    ensures
        m.server_name@ == v.server_name,
        m.instance_name@ == v.instance_name,
        m.timeout_ms == timeout,
        m.explicit_protocol == (v.protocol_name.len() != 0),
        v.instance_name.len() > 0 && v.instance_name.last() != '\\' ==> m.source_string@
            == v.original_server_name + seq!['\\'] + v.instance_name,
        v.instance_name.len() == 0 && v.original_server_name.len() > 0 && v.original_server_name.last()
            != '\\' ==> m.source_string@ == v.original_server_name,
{
    lemma_literals();
    let s = v.original_server_name + "\\"@ + v.instance_name;
    if v.instance_name.len() == 0 && v.original_server_name.len() > 0 {
        assert(s.drop_last() =~= v.original_server_name);
        assert(s.last() == '\\');
        reveal_with_fuel(without_end, 3);
    } else if v.instance_name.len() > 0 {
        assert(s.last() == v.instance_name.last());
        reveal_with_fuel(without_end, 3);
    }
}

/// Whether a text is white space and nothing else.
pub open spec fn is_blank(b: Seq<char>) -> bool {
    forall|i: int| 0 <= i < b.len() ==> is_white_space(#[trigger] b[i])
}

/// A separator with white space around it.
pub open spec fn wide(c: char, b: Seq<char>) -> Seq<char> {
    b + seq![c] + b
}

/// A server and perhaps an instance, with white space around the separator.
pub open spec fn wide_instance(server: Seq<char>, instance: Option<Seq<char>>, b: Seq<char>) -> Seq<char> {
    server + (match instance {
        Some(x) => wide('\\', b) + x,
        None => Seq::empty(),
    })
}

/// A server, perhaps an instance and perhaps a port, with white space around the separators.
pub open spec fn wide_server(
    server: Seq<char>,
    instance: Option<Seq<char>>,
    port: Option<Seq<char>>,
    b: Seq<char>,
) -> Seq<char> {
    wide_instance(server, instance, b) + (match port {
        Some(x) => wide(',', b) + x,
        None => Seq::empty(),
    })
}

/// The name of a data source with white space around its separators.
pub open spec fn wide_name(
    protocol: Option<Seq<char>>,
    server: Seq<char>,
    instance: Option<Seq<char>>,
    port: Option<Seq<char>>,
    b: Seq<char>,
) -> Seq<char> {
    (match protocol {
        Some(p) => p + wide(':', b),
        None => Seq::empty(),
    }) + wide_server(server, instance, port, b)
}

/// White space before a text is trimmed.
proof fn lemma_blank_start(b: Seq<char>, s: Seq<char>)
    requires
        is_blank(b),
        s.len() > 0 && !is_white_space(s[0]),
    ensures
        trimmed_start(b + s) == s,
    decreases b.len(),
{
    if b.len() > 0 {
        assert(is_white_space(b[0]));
        assert((b + s).drop_first() =~= b.drop_first() + s);
        assert forall|i: int| 0 <= i < b.drop_first().len() implies is_white_space(
            #[trigger] b.drop_first()[i],
        ) by {
            assert(is_white_space(b[i + 1]));
        }
        lemma_blank_start(b.drop_first(), s);
    } else {
        assert(b + s =~= s);
    }
}

/// White space behind a text is trimmed.
proof fn lemma_blank_end(s: Seq<char>, b: Seq<char>)
    requires
        is_blank(b),
        s.len() > 0 && !is_white_space(s.last()),
    ensures
        trimmed_end(s + b) == s,
    decreases b.len(),
{
    if b.len() > 0 {
        assert(is_white_space(b[b.len() - 1]));
        assert((s + b).drop_last() =~= s + b.drop_last());
        lemma_blank_end(s, b.drop_last());
    } else {
        assert(s + b =~= s);
    }
}

/// White space has no case and no separators.
proof fn lemma_blank(b: Seq<char>)
    requires
        is_blank(b),
    ensures
        lower(b) == b,
        forall|i: int|
            0 <= i < b.len() ==> #[trigger] b[i] != ':' && b[i] != ',' && b[i] != '\\' && b[i] != '/',
{
    assert forall|i: int| 0 <= i < b.len() implies #[trigger] lower(b)[i] == b[i] by {
        assert(is_white_space(b[i]));
        lemma_blank_char(b[i]);
    }
    assert(lower(b) =~= b);
    assert forall|i: int| 0 <= i < b.len() implies #[trigger] b[i] != ':' && b[i] != ',' && b[i] != '\\'
        && b[i] != '/' by {
        assert(is_white_space(b[i]));
        lemma_blank_char(b[i]);
    }
}

/// A character that is white space has no case and is no separator.
proof fn lemma_blank_char(c: char)
    requires
        is_white_space(c),
    ensures
        ascii_lower(c) == c,
        c != ':' && c != ',' && c != '\\' && c != '/',
{
    law_ascii_lower(c);
    law_white_space(c);
}

/// A text before a separator with white space around it, in both cases of letters.
proof fn lemma_wide_split(a: Seq<char>, c: char, b: Seq<char>, x: Seq<char>)
    requires
        is_blank(b),
        c == ':' || c == ',' || c == '\\',
        !a.contains(c),
        a.len() > 0 && !is_white_space(a.last()),
        x.len() > 0 && !is_white_space(x[0]),
    ensures
        ({
            let s = a + (wide(c, b) + x);
            let n = lower(s);
            let i = (a.len() + b.len()) as int;
            &&& position(s, c) == Some(i)
            &&& position(n, c) == Some(i)
            &&& trimmed_end(s.take(i)) == a
            &&& trimmed_end(n.take(i)) == lower(a)
            &&& s.skip(i + 1) == b + x
            &&& trimmed_start(s.skip(i + 1)) == x
            &&& trimmed_start(n.skip(i + 1)) == lower(x)
        }),
{
    let s = a + (wide(c, b) + x);
    let n = lower(s);
    let i = (a.len() + b.len()) as int;
    lemma_blank(b);
    let front = a + b;
    assert(!front.contains(c)) by {
        if front.contains(c) {
            let k = front.index_of(c);
            assert(front[k] == c);
            if k < a.len() {
                assert(a[k] == c);
            } else {
                assert(b[k - a.len()] == c);
            }
        }
    }
    assert(s =~= front + (seq![c] + (b + x)));
    lemma_separator(front, c, b + x);
    lemma_lower(s, c);
    assert(s.take(i) =~= a + b);
    assert(s.skip(i + 1) =~= b + x);
    lemma_lower_concat(a, b);
    lemma_lower_concat(b, x);
    assert(n.take(i) =~= lower(a + b));
    assert(n.skip(i + 1) =~= lower(b + x));
    lemma_lower_space(a.last());
    lemma_lower_space(x[0]);
    assert(lower(a).last() == ascii_lower(a.last()));
    lemma_blank_end(a, b);
    lemma_blank_end(lower(a), b);
    lemma_blank_start(b, x);
    lemma_blank_start(b, lower(x));
}

/// The instance is split off with the white space before it.
proof fn lemma_wide_instance(r: DataSourceView, server: Seq<char>, instance: Option<Seq<char>>, b: Seq<char>)
    requires
        are_parts(server, instance, None),
        is_blank(b),
    ensures
        ({
            let s = wide_instance(server, instance, b);
            let front = instance_part(server, instance);
            &&& with_instance(r, s, lower(s)) == with_instance(r, front, lower(front))
            &&& s.len() > 0 && !is_white_space(s[0]) && !is_white_space(s.last())
            &&& s[0] == server[0]
            &&& !s.contains(',') && !s.contains(':') && !s.contains('/')
        }),
{
    let s = wide_instance(server, instance, b);
    lemma_instance(r, server, instance);
    lemma_part(server);
    lemma_blank(b);
    assert(!is_white_space(server[0]) && !is_white_space(server[server.len() - 1]));
    match instance {
        Some(x) => {
            lemma_part(x);
            assert(!is_white_space(x[0]) && !is_white_space(x[x.len() - 1]));
            lemma_wide_split(server, '\\', b, x);
            lemma_not_trimmed(x);
            lemma_reserved(x);
            assert(s.last() == x[x.len() - 1]);
            assert forall|i: int| 0 <= i < s.len() implies #[trigger] s[i] != ',' && s[i] != ':' && s[i]
                != '/' by {
                let k = server.len() as int;
                let m = b.len() as int;
                if i < k {
                    assert(s[i] == server[i]);
                } else if i < k + m {
                    assert(s[i] == b[i - k]);
                } else if i == k + m {
                    assert(s[i] == '\\');
                } else if i <= k + 2 * m {
                    assert(s[i] == b[i - k - m - 1]);
                } else {
                    assert(s[i] == x[i - k - 2 * m - 1]);
                }
            }
        },
        None => {
            assert(s =~= instance_part(server, instance));
            assert(s =~= server);
        },
    }
}

/// The port is split off with the white space around it.
proof fn lemma_wide_parameter(
    r: DataSourceView,
    server: Seq<char>,
    instance: Option<Seq<char>>,
    port: Option<Seq<char>>,
    b: Seq<char>,
)
    requires
        are_parts(server, instance, port),
        is_blank(b),
    ensures
        ({
            let s = wide_server(server, instance, port, b);
            let t = server_part(server, instance, port);
            let f = wide_instance(server, instance, b);
            &&& with_parameter(r, s, lower(s)) is Err == with_parameter(r, t, lower(t)) is Err
            &&& with_parameter(r, t, lower(t)) matches Ok((q, _, _)) ==> with_parameter(r, s, lower(s)) == Ok::<
                (DataSourceView, Seq<char>, Seq<char>),
                Seq<char>,
            >((q, lower(f), f))
            &&& with_parameter(r, t, lower(t)) matches Err(e) ==> with_parameter(r, s, lower(s)) == Err::<
                (DataSourceView, Seq<char>, Seq<char>),
                Seq<char>,
            >(e)
            &&& s.len() > 0 && !is_white_space(s[0]) && s[0] == server[0]
            &&& !s.contains(':') && !s.contains('/')
        }),
{
    let s = wide_server(server, instance, port, b);
    let f = wide_instance(server, instance, b);
    lemma_wide_instance(r, server, instance, b);
    lemma_parameter(r, server, instance, port);
    lemma_server_part(server, instance, port);
    lemma_lower(server_part(server, instance, port), ',');
    lemma_blank(b);
    match port {
        Some(x) => {
            lemma_part(x);
            assert(!is_white_space(x[0]) && !is_white_space(x[x.len() - 1]));
            lemma_wide_split(f, ',', b, x);
            lemma_not_trimmed(x);
            lemma_separator(x, '\\', x);
            assert forall|i: int| 0 <= i < s.len() implies #[trigger] s[i] != ':' && s[i] != '/' by {
                let k = f.len() as int;
                let m = b.len() as int;
                if i < k {
                    assert(s[i] == f[i]);
                } else if i < k + m {
                    assert(s[i] == b[i - k]);
                } else if i == k + m {
                    assert(s[i] == ',');
                } else if i <= k + 2 * m {
                    assert(s[i] == b[i - k - m - 1]);
                } else {
                    assert(s[i] == x[i - k - 2 * m - 1]);
                }
            }
        },
        None => {
            assert(s =~= f);
            lemma_separator(f, ',', f);
            lemma_lower(f, ',');
        },
    }
}

/// The protocol is split off with the white space around it.
proof fn lemma_wide_protocol(
    protocol: Option<Seq<char>>,
    server: Seq<char>,
    instance: Option<Seq<char>>,
    port: Option<Seq<char>>,
    b: Seq<char>,
)
    requires
        are_parts(server, instance, port),
        protocol matches Some(p) ==> is_part(p) && (lower(p) == "tcp"@ || lower(p) == "np"@ || lower(p)
            == "lpc"@ || lower(p) == "admin"@),
        is_blank(b),
    ensures
        ({
            let name = wide_name(protocol, server, instance, port, b);
            let rest = wide_server(server, instance, port, b);
            &&& protocol_split(name, lower(name)) == (match protocol {
                Some(p) => Some((lower(p), lower(rest), rest)),
                None => None,
            })
            &&& protocol is None ==> name == rest
            &&& !starts(lower(rest), "\\\\"@)
        }),
{
    let name = wide_name(protocol, server, instance, port, b);
    let rest = wide_server(server, instance, port, b);
    lemma_literals();
    lemma_wide_parameter(blank(false), server, instance, port, b);
    lemma_part(server);
    match protocol {
        Some(p) => {
            lemma_part(p);
            assert(!is_white_space(p[0]) && !is_white_space(p[p.len() - 1]));
            assert(name =~= p + (wide(':', b) + rest));
            lemma_wide_split(p, ':', b, rest);
            let i = (p.len() + b.len()) as int;
            let n = lower(name);
            assert(n.take(i) =~= lower(p) + b) by {
                lemma_blank(b);
            }
            assert(n.take(i)[0] == lower(p)[0]);
            assert(trimmed_start(n.take(i)) == n.take(i));
            lemma_blank(b);
            let front = p + b;
            law_occurrences(front, Seq::empty(), ':');
            law_occurrences(front + seq![':'], b + rest, ':');
            law_occurrences(b + rest, Seq::empty(), ':');
            assert(front.push(':') =~= front + seq![':']);
            assert(name =~= front + seq![':'] + (b + rest));
            assert(!front.contains(':')) by {
                if front.contains(':') {
                    let k = front.index_of(':');
                    assert(front[k] == ':');
                    if k < p.len() {
                        assert(p[k] == ':');
                    } else {
                        assert(b[k - p.len()] == ':');
                    }
                }
            }
            assert(!(b + rest).contains(':')) by {
                if (b + rest).contains(':') {
                    let k = (b + rest).index_of(':');
                    assert((b + rest)[k] == ':');
                    if k < b.len() {
                        assert(b[k] == ':');
                    } else {
                        assert(rest[k - b.len()] == ':');
                    }
                }
            }
            lemma_lower(name, ':');
        },
        None => {
            assert(name =~= rest);
            law_first_occurrence(rest, ':');
            lemma_lower(rest, ':');
        },
    }
    if starts(lower(rest), "\\\\"@) {
        assert(lower(rest)[0] == lower(rest).take(2)[0]);
        lemma_lower_char(server[0], '\\');
    }
}

/// A name with white space around its separators is no other name.
proof fn lemma_wide_no_container(
    protocol: Option<Seq<char>>,
    server: Seq<char>,
    instance: Option<Seq<char>>,
    port: Option<Seq<char>>,
    b: Seq<char>,
)
    requires
        are_parts(server, instance, port),
        protocol matches Some(p) ==> is_part(p) && (lower(p) == "tcp"@ || lower(p) == "np"@ || lower(p)
            == "lpc"@ || lower(p) == "admin"@),
        server[0] != '(' || lower(server) == "(local)"@,
        lower(server) != "makeitwork"@,
        is_blank(b),
    ensures
        ({
            let n = lower(wide_name(protocol, server, instance, port, b));
            &&& n.len() > 0
            &&& !is_container(n)
            &&& !is_localdb(n)
        }),
{
    let o = wide_name(protocol, server, instance, port, b);
    let n = lower(o);
    let rest = wide_server(server, instance, port, b);
    let f = wide_instance(server, instance, b);
    lemma_wide_parameter(blank(false), server, instance, port, b);
    lemma_wide_instance(blank(false), server, instance, b);
    lemma_part(server);
    lemma_blank(b);
    reveal_strlit("(localdb)\\");
    reveal_strlit("(localdb)/");
    reveal_strlit("(localdb)");
    reveal_strlit("(local)");
    reveal_strlit("makeitwork");
    reveal_strlit("localdb://");
    reveal_strlit("tcp");
    reveal_strlit("np");
    reveal_strlit("lpc");
    reveal_strlit("admin");
    lemma_lower(o, '/');
    lemma_lower(o, ':');
    lemma_lower(o, ',');
    lemma_lower(o, '\\');
    assert(!o.contains('/')) by {
        if o.contains('/') {
            let i = o.index_of('/');
            assert(o[i] == '/');
            match protocol {
                Some(p) => {
                    let k = p.len() as int;
                    let m = b.len() as int;
                    if i < k {
                        assert(p[i] == '/');
                    } else if i < k + m {
                        assert(b[i - k] == '/');
                    } else if i == k + m {
                        assert(o[i] == ':');
                    } else if i <= k + 2 * m {
                        assert(b[i - k - m - 1] == '/');
                    } else {
                        assert(rest[i - k - 2 * m - 1] == '/');
                    }
                },
                None => {
                    assert(rest[i] == '/');
                },
            }
        }
    }
    if starts(n, "localdb://"@) {
        assert(n[8] == n.take(10)[8]);
        assert(n.contains('/'));
    }
    if starts(n, "(localdb)\\"@) {
        assert(n[0] == n.take(10)[0]);
        assert(n[6] == n.take(10)[6]);
    }
    if starts(n, "(localdb)/"@) {
        assert(n[0] == n.take(10)[0]);
        assert(n[6] == n.take(10)[6]);
    }
    match protocol {
        Some(p) => {
            assert(n[0] == lower(p)[0]);
            assert(o[p.len() as int + b.len()] == ':');
            assert(o.contains(':'));
            if n == "makeitwork"@ {
                let i = n.index_of(':');
                assert(n[i] == ':');
            }
        },
        None => {
            assert(o =~= rest);
            assert(n[0] == ascii_lower(server[0]));
            law_ascii_lower(server[0]);
            if lower(server) == "(local)"@ {
                assert(f[6] == server[6]);
                assert(rest[6] == f[6]);
                assert(n[6] == lower(server)[6]);
            }
            if n == "makeitwork"@ {
                if port is Some {
                    assert(rest[f.len() as int + b.len()] == ',');
                    assert(o.contains(','));
                    let i = n.index_of(',');
                    assert(n[i] == ',');
                } else if instance is Some {
                    assert(rest =~= f);
                    assert(rest[server.len() as int + b.len()] == '\\');
                    assert(o.contains('\\'));
                    let i = n.index_of('\\');
                    assert(n[i] == '\\');
                } else {
                    assert(o =~= server);
                }
            }
        },
    }
}

/// White space around the separators of a name does not matter.
#[verifier::rlimit(40)]
#[verifier::spinoff_prover]
pub proof fn law_blanks_do_not_matter(
    protocol: Option<Seq<char>>,
    server: Seq<char>,
    instance: Option<Seq<char>>,
    port: Option<Seq<char>>,
    b: Seq<char>,
    parallel: bool,
    platform: Platform,
    computer: Option<Seq<char>>,
)
    requires
        are_parts(server, instance, port),
        protocol matches Some(p) ==> is_part(p) && (lower(p) == "tcp"@ || lower(p) == "np"@ || lower(p)
            == "lpc"@ || lower(p) == "admin"@),
        server[0] != '(' || lower(server) == "(local)"@,
        lower(server) != "makeitwork"@,
        is_blank(b),
    ensures
        ({
            let wide = wide_name(protocol, server, instance, port, b);
            let name = name_of(protocol, server, instance, port);
            source_of(wide, lower(wide), parallel, platform, computer) == source_of(
                name,
                lower(name),
                parallel,
                platform,
                computer,
            )
        }),
{
    let r = match protocol {
        Some(p) => DataSourceView { protocol_name: lower(p), ..blank(parallel) },
        None => blank(parallel),
    };
    lemma_no_container(protocol, server, instance, port);
    lemma_first_step(protocol, server, instance, port);
    lemma_wide_no_container(protocol, server, instance, port, b);
    lemma_wide_protocol(protocol, server, instance, port, b);
    lemma_wide_parameter(r, server, instance, port, b);
    lemma_parameter(r, server, instance, port);
    let t = server_part(server, instance, port);
    match with_parameter(r, t, lower(t)) {
        Ok((q, _, _)) => {
            lemma_wide_instance(q, server, instance, b);
        },
        Err(_) => {},
    }
}

/// An instance behind a port is not looked at: the port ends before it.
pub proof fn law_instance_behind_port(r: DataSourceView, server: Seq<char>, port: Seq<char>, instance: Seq<char>)
    requires
        is_part(server),
        is_part(port),
        is_part(instance),
    ensures
        ({
            let s = server + seq![','] + port + seq!['\\'] + instance;
            let t = server + seq![','] + port;
            with_parameter(r, s, lower(s)) == with_parameter(r, t, lower(t))
        }),
{
    let s = server + seq![','] + port + seq!['\\'] + instance;
    let t = server + seq![','] + port;
    let long = port + (seq!['\\'] + instance);
    lemma_part(server);
    lemma_part(port);
    lemma_part(instance);
    assert(s =~= server + (seq![','] + long));
    assert(t =~= server + (seq![','] + port));
    lemma_separator(server, ',', long);
    lemma_separator(server, ',', port);
    lemma_lower(s, ',');
    lemma_lower(t, ',');
    let k = server.len() as int;
    assert(s.skip(k + 1) =~= long);
    assert(t.skip(k + 1) =~= port);
    assert(!is_white_space(port[0]) && !is_white_space(port[port.len() - 1]));
    assert(!is_white_space(instance[instance.len() - 1]));
    assert(long.last() == instance[instance.len() - 1]);
    lemma_not_trimmed(long);
    lemma_separator(port, '\\', instance);
    lemma_separator(port, '\\', port);
    assert(long.take(port.len() as int) =~= port);
    assert(s.take(k) =~= t.take(k));
    assert(lower(s).take(k) =~= lower(t).take(k));
}

/// What stands before a colon and is no protocol belongs to the server.
pub proof fn law_other_prefixes(prefix: Seq<char>, rest: Seq<char>)
    requires
        is_part(prefix),
        lower(prefix) != "tcp"@ && lower(prefix) != "np"@ && lower(prefix) != "lpc"@ && lower(prefix)
            != "admin"@,
    ensures
        ({
            let name = prefix + (seq![':'] + rest);
            protocol_split(name, lower(name)) is None
        }),
{
    lemma_part(prefix);
    let name = prefix + (seq![':'] + rest);
    lemma_separator(prefix, ':', rest);
    lemma_lower(name, ':');
    assert(lower(name).take(prefix.len() as int) =~= lower(prefix));
}

/// A name with several colons has no protocol.
pub proof fn law_several_colons(a: Seq<char>, b: Seq<char>, c: Seq<char>)
    ensures
        ({
            let name = a + seq![':'] + (b + seq![':'] + c);
            protocol_split(name, lower(name)) is None
        }),
{
    let name = a + seq![':'] + (b + seq![':'] + c);
    law_occurrences(a + seq![':'], b + seq![':'] + c, ':');
    law_occurrences(a, seq![':'], ':');
    law_occurrences(b + seq![':'], c, ':');
    law_occurrences(b, seq![':'], ':');
    law_occurrences(seq![':'], Seq::empty(), ':');
    assert(seq![':'].drop_last() =~= Seq::<char>::empty());
    assert(seq![':'].last() == ':');
    reveal_with_fuel(occurrences, 2);
    lemma_lower(name, ':');
}

} // verus!
