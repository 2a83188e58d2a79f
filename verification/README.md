# nac

A network access control system: a RADIUS server and captive portal, an
API gateway, a DHCP server, an enforcement service (firewall plans and ARP
frames) and an endpoint agent.

- `src/` is the verified library, written in Verus: the RADIUS codec and
  access decisions, the portal's answers and login outcome, the token
  format, the directory login conversation and local password checks, the
  policy evaluator, the lease pool, DHCP datagrams and replies, the
  ARP/NDP/DHCP parsers, SNMP GET encoding and frame builders, the firewall
  plans and the order in which their commands run, the readers of
  `/proc/net/route` and `/proc/net/arp`, and the agent's readings of its
  host. Each public function has a contract; the laws that relate several
  functions are public proof functions named `law_*`.
- `tests/` exercises the library on concrete values.
- `app/` holds the services: sockets, HTTP, the database, the message bus,
  LDAP connections, and running commands. It hands the library plain values
  and acts on what the library decides. Run it with the service name as the
  first argument: `aaa`, `api-gateway`, `dhcp`, `enforcement` or
  `endpoint-agent`.

What `app/` does not have:

- The agent gateway's gRPC service and the endpoint agent's gRPC client.
  Their message definitions (`.proto` files) are not part of this source
  tree, so the gRPC code cannot be generated and `tonic` is not a
  dependency. The decisions those services make (registration record and
  claims, posture report, the action for a status, the bearer token of a
  report) are in `src/agent_gateway.rs`.
- Because of that, the endpoint agent only collects its readings and runs
  the local compliance checks; it does not register or report.
- The database queries of the stores that only the agent gateway used.
