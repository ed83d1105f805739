//! Loopback TCP port probing and allocation: find free ports at or above a
//! base, within a bounded span.
use vstd::prelude::*;
use tokio::net::TcpSocket;
use crate::error::ScrcpyError;

verus! {

/// Socket handles are only created and bound here; nothing is read from them.
#[verifier::external_type_specification]
#[verifier::external_body]
pub struct ExTcpSocket(TcpSocket);

/// Relies on tokio::net::TcpSocket::new_v4: creates a fresh, unbound IPv4
/// socket, or fails, as the operating system decides. Nothing is promised of
/// the outcome.
#[verifier::external_body]
fn tcp_socket_new() -> (r: Option<TcpSocket>) {
    TcpSocket::new_v4().ok()
}

/// Relies on tokio::net::TcpSocket::bind: binds the socket to the loopback
/// address at the given port. Whether that succeeds depends on what else is
/// bound on the host, so nothing is promised of the outcome.
#[verifier::external_body]
fn tcp_socket_bind_loopback(sock: &TcpSocket, port: u16) -> (r: bool) {
    sock.bind(core::net::SocketAddr::from(([127u8, 0u8, 0u8, 1u8], port))).is_ok()
}

/// Whether a loopback TCP listener can be bound at this port right now. The
/// probe socket is released immediately. The answer depends on the host's
/// state, so no two calls need to agree.
pub fn is_port_available(port: u16) -> bool {
    match tcp_socket_new() {
        Some(sock) => tcp_socket_bind_loopback(&sock, port),
        None => false,
    }
}

/// The upper end of a port search: `start + span`, stopped at the largest
/// port.
pub open spec fn spec_port_range_end(start: u16, span: u16) -> u16 {
    if start + span > 0xFFFF {
        0xFFFFu16
    } else {
        (start + span) as u16
    }
}

/// Scan `[start_port, start_port + max_attempts]` in order and return the
/// first port that accepts a loopback listener. Which port that is depends on
/// the host; the result is always within the range, and exhausting the range
/// yields `NoAvailablePort` naming it.
pub fn find_available_port(start_port: u16, max_attempts: u16) -> (r: Result<u16, ScrcpyError>)
    ensures
        r matches Ok(p) ==> start_port <= p <= spec_port_range_end(start_port, max_attempts),
        r matches Err(e) ==> e == ScrcpyError::NoAvailablePort(
            start_port,
            spec_port_range_end(start_port, max_attempts),
        ),
{
    let end_port: u16 = if start_port as u32 + max_attempts as u32 > 0xFFFF {
        0xFFFF
    } else {
        start_port + max_attempts
    };
    let mut port = start_port;
    loop
        invariant
            start_port <= port <= end_port,
            end_port == spec_port_range_end(start_port, max_attempts),
        decreases end_port - port,
    {
        if is_port_available(port) {
            return Ok(port);
        }
        if port == end_port {
            return Err(ScrcpyError::NoAvailablePort(start_port, end_port));
        }
        port = port + 1;
    }
}

/// Find `count` free ports, each search starting one above the previous
/// result: the ports come out in strictly increasing order (up to the last
/// port, where the search saturates), all at or above the base.
pub fn find_available_ports(start_port: u16, count: usize, max_attempts: u16) -> (r: Result<
    Vec<u16>,
    ScrcpyError,
>)
    ensures
        r matches Ok(v) ==> {
            &&& v@.len() == count
            &&& forall|i: int| 0 <= i < count ==> start_port <= #[trigger] v@[i]
            &&& forall|i: int|
                0 <= i < count - 1 ==> (v@[i] < 0xFFFF ==> #[trigger] v@[i + 1] > v@[i])
        },
        r matches Err(e) ==> e is NoAvailablePort,
{
    let mut ports: Vec<u16> = Vec::new();
    let mut current_port = start_port;
    let mut i: usize = 0;
    while i < count
        invariant
            i == ports@.len(),
            i <= count,
            current_port >= start_port,
            forall|j: int| 0 <= j < i ==> start_port <= #[trigger] ports@[j],
            forall|j: int|
                0 <= j < i - 1 ==> (ports@[j] < 0xFFFF ==> #[trigger] ports@[j + 1] > ports@[j]),
            i > 0 ==> (ports@[i - 1] < 0xFFFF ==> current_port > ports@[i - 1]),
            i > 0 ==> current_port >= ports@[i - 1],
        decreases count - i,
    {
        let port = match find_available_port(current_port, max_attempts) {
            Ok(p) => p,
            Err(e) => {
                return Err(e);
            },
        };
        ports.push(port);
        current_port = if port == 0xFFFF {
            0xFFFF
        } else {
            port + 1
        };
        i = i + 1;
    }
    Ok(ports)
}

/// Choose the ports for the agent's two sockets: a free port at or above the
/// requested video port, then a free control port searched strictly above the
/// video port when the requested control port does not clear it.
pub fn select_server_ports(video_port: u16, control_port: u16) -> (r: Result<
    (u16, u16),
    ScrcpyError,
>)
    ensures
        r matches Ok(pair) ==> {
            &&& pair.0 >= video_port
            &&& (pair.0 < 0xFFFF ==> pair.1 > pair.0)
        },
        r matches Err(e) ==> e is NoAvailablePort,
{
    let actual_video_port = match find_available_port(video_port, 100) {
        Ok(p) => p,
        Err(e) => {
            return Err(e);
        },
    };
    let control_start: u16 = if control_port <= actual_video_port {
        if actual_video_port == 0xFFFF {
            0xFFFF
        } else {
            actual_video_port + 1
        }
    } else {
        control_port
    };
    let actual_control_port = match find_available_port(control_start, 100) {
        Ok(p) => p,
        Err(e) => {
            return Err(e);
        },
    };
    Ok((actual_video_port, actual_control_port))
}

} // verus!
