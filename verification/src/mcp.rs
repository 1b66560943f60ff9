//! Connecting to the servers that offer tools.
use crate::text::{contains, copy, decimal, decimal_text, lemma_contains, opt_text};
use vstd::prelude::*;

verus! {

/// How long a connection may take, in seconds.
pub const MCP_CONNECT_TIMEOUT_SECS: u64 = 15;

/// How a server is reached.
#[derive(Clone, Copy, Debug, PartialEq, Eq, Structural)]
pub enum Transport {
    Stdio,
    Http,
}

/// How the server `name` is reached, if at all, and what the user is told of it. A command goes
/// before an address.
pub fn plan_connection(name: &str, has_command: bool, has_url: bool) -> (r: (
    Option<Transport>,
    Option<String>,
))
    ensures
        r.0 == (if has_command {
            Some(Transport::Stdio)
        } else if has_url {
            Some(Transport::Http)
        } else {
            None
        }),
        opt_text(r.1) == (if has_command && has_url {
            Some("MCP: '"@ + name@ + "' sets both `command` and `url`; using stdio"@)
        } else if !has_command && !has_url {
            Some("MCP: skipping '"@ + name@ + "' - no `command` or `url`"@)
        } else {
            None
        }),
{
    if has_command && has_url {
        let mut s = copy("MCP: '");
        s.append(name);
        s.append("' sets both `command` and `url`; using stdio");
        return (Some(Transport::Stdio), Some(s));
    }
    if !has_command && !has_url {
        let mut s = copy("MCP: skipping '");
        s.append(name);
        s.append("' - no `command` or `url`");
        return (None, Some(s));
    }
    if has_command {
        (Some(Transport::Stdio), None)
    } else {
        (Some(Transport::Http), None)
    }
}

/// What came of connecting.
pub enum Connection {
    /// The server offers so many tools.
    Connected(u64),
    Failed(String),
    TimedOut,
}

/// What the user is told of connecting to the server `name`.
pub fn connection_status(name: &str, outcome: &Connection) -> (r: String)
    ensures
        r@ == (match *outcome {
            Connection::Connected(n) => "MCP: connected to '"@ + name@ + "' ("@ + decimal(n as nat)
                + " tools)"@,
            Connection::Failed(e) => "MCP: failed to connect to '"@ + name@ + "': "@ + e@,
            Connection::TimedOut => "MCP: skipping '"@ + name@ + "' - connection timed out after "@
                + decimal(MCP_CONNECT_TIMEOUT_SECS as nat) + "s"@,
        }),
{
    match outcome {
        Connection::Connected(n) => {
            let mut s = copy("MCP: connected to '");
            s.append(name);
            s.append("' (");
            let d = decimal_text(*n);
            s.append(d.as_str());
            s.append(" tools)");
            s
        },
        Connection::Failed(e) => {
            let mut s = copy("MCP: failed to connect to '");
            s.append(name);
            s.append("': ");
            s.append(e.as_str());
            s
        },
        Connection::TimedOut => {
            let mut s = copy("MCP: skipping '");
            s.append(name);
            s.append("' - connection timed out after ");
            let d = decimal_text(MCP_CONNECT_TIMEOUT_SECS);
            s.append(d.as_str());
            s.append("s");
            s
        },
    }
}

/// A server is reached by its command, and else at its address; one with neither is left out, and
/// the user is told so, as where it has both.
pub proof fn servers_are_reached_by_command_first(
    name: &str,
    has_command: bool,
    has_url: bool,
    r: (Option<Transport>, Option<String>),
)
    requires
        call_ensures(plan_connection, (name, has_command, has_url), r),
    ensures
        has_command ==> r.0 == Some(Transport::Stdio),
        !has_command && has_url ==> r.0 == Some(Transport::Http),
        !has_command && !has_url ==> r.0 is None,
        (r.1 is Some) == (has_command == has_url),
{
}

/// What came of connecting is told with the name of the server, and a failure with its reason.
pub proof fn connections_are_told(name: &str, outcome: Connection, r: String)
    requires
        call_ensures(connection_status, (name, &outcome), r),
    ensures
        contains(r@, name@),
        outcome matches Connection::Connected(n) ==> contains(r@, decimal(n as nat)),
        outcome matches Connection::Failed(e) ==> r@.len() >= e@.len() && r@.skip(
            r@.len() - e@.len(),
        ) == e@,
{
    let head = match outcome {
        Connection::Connected(_) => "MCP: connected to '"@,
        Connection::Failed(_) => "MCP: failed to connect to '"@,
        Connection::TimedOut => "MCP: skipping '"@,
    };
    let at = head.len() as int;
    assert(r@.subrange(at, at + name@.len()) =~= name@);
    lemma_contains(r@, name@, at);
    match outcome {
        Connection::Connected(n) => {
            let d = decimal(n as nat);
            let k = (head + name@ + "' ("@).len() as int;
            assert(r@.subrange(k, k + d.len()) =~= d);
            lemma_contains(r@, d, k);
        },
        Connection::Failed(e) => {
            assert(r@.skip(r@.len() - e@.len()) =~= e@);
        },
        _ => {},
    }
}

} // verus!
