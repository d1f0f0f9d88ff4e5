//! The files that the manager writes to a host.
use vstd::prelude::*;
use crate::decimal::{decimal, fmt_decimal};
use crate::text::{append_chars, append_str};

verus! {

/// The `docker-compose.yml` of an instance whose server listens on the
/// given TCP, UDP and HTTP ports.
pub open spec fn docker_compose_text(tcp: nat, udp: nat, http: nat) -> Seq<char> {
    "\nservices:\n  ac_server:\n    image: ubuntu:20.04\n    volumes:\n      - ./ac_files:/data\n    ports:\n      - \""@
        + decimal(tcp) + ":"@ + decimal(tcp) + "/tcp\"\n      - \""@ + decimal(udp) + ":"@
        + decimal(udp) + "/udp\"\n      - \""@ + decimal(http) + ":"@ + decimal(http)
        + "/tcp\"\n    working_dir: /data\n    command: ./acServer\n"@
}

/// The `docker-compose.yml` of an instance with the given ports.
pub fn get_ac_server_docker_compose(server_port_tcp: u16, server_port_udp: u16, http_port: u16) -> (r: String)
    ensures
        r@ == docker_compose_text(server_port_tcp as nat, server_port_udp as nat, http_port as nat),
{
    let tcp = fmt_decimal(server_port_tcp as u64);
    let udp = fmt_decimal(server_port_udp as u64);
    let http = fmt_decimal(http_port as u64);
    let mut r = String::new();
    append_str(
        &mut r,
        "\nservices:\n  ac_server:\n    image: ubuntu:20.04\n    volumes:\n      - ./ac_files:/data\n    ports:\n      - \"",
    );
    append_chars(&mut r, tcp.as_slice());
    append_str(&mut r, ":");
    append_chars(&mut r, tcp.as_slice());
    append_str(&mut r, "/tcp\"\n      - \"");
    append_chars(&mut r, udp.as_slice());
    append_str(&mut r, ":");
    append_chars(&mut r, udp.as_slice());
    append_str(&mut r, "/udp\"\n      - \"");
    append_chars(&mut r, http.as_slice());
    append_str(&mut r, ":");
    append_chars(&mut r, http.as_slice());
    append_str(&mut r, "/tcp\"\n    working_dir: /data\n    command: ./acServer\n");
    r
}

/// The line of the compose file that publishes container port `port`
/// with protocol `proto` on the same port of the host.
pub open spec fn port_mapping(port: nat, proto: Seq<char>) -> Seq<char> {
    "      - \""@ + decimal(port) + ":"@ + decimal(port) + "/"@ + proto + "\"\n"@
}

/// Whatever the ports, the compose file runs one service from Ubuntu
/// 20.04, mounts the instance's `./ac_files` folder at `/data`, publishes
/// the TCP port, the UDP port and the HTTP port each on the same port of
/// the host (TCP, UDP, TCP), and starts `./acServer` from `/data`.
pub proof fn lemma_compose_runs_server_from_mount(tcp: nat, udp: nat, http: nat)
    ensures
        docker_compose_text(tcp, udp, http)
            == "\nservices:\n  ac_server:\n    image: ubuntu:20.04\n    volumes:\n      - ./ac_files:/data\n    ports:\n"@
            + port_mapping(tcp, "tcp"@) + port_mapping(udp, "udp"@) + port_mapping(http, "tcp"@)
            + "    working_dir: /data\n    command: ./acServer\n"@,
{
    reveal_strlit("\nservices:\n  ac_server:\n    image: ubuntu:20.04\n    volumes:\n      - ./ac_files:/data\n    ports:\n");
    reveal_strlit("\nservices:\n  ac_server:\n    image: ubuntu:20.04\n    volumes:\n      - ./ac_files:/data\n    ports:\n      - \"");
    reveal_strlit("/tcp\"\n    working_dir: /data\n    command: ./acServer\n");
    reveal_strlit("    working_dir: /data\n    command: ./acServer\n");
    reveal_strlit("/tcp\"\n      - \"");
    reveal_strlit("/udp\"\n      - \"");
    reveal_strlit("      - \"");
    reveal_strlit("\"\n");
    reveal_strlit(":");
    reveal_strlit("/");
    reveal_strlit("tcp");
    reveal_strlit("udp");
    let rhs = "\nservices:\n  ac_server:\n    image: ubuntu:20.04\n    volumes:\n      - ./ac_files:/data\n    ports:\n"@
        + port_mapping(tcp, "tcp"@) + port_mapping(udp, "udp"@) + port_mapping(http, "tcp"@)
        + "    working_dir: /data\n    command: ./acServer\n"@;
    assert(docker_compose_text(tcp, udp, http) =~= rhs);
}

} // verus!
