# holo

Routing protocols and their configuration, verified with Verus.

The library under `src/` holds the rules of the routing daemon: how changes of
the configuration are parsed into transactions and applied, what each change
leaves to be done, how routes are compared, selected, filtered by policies and
disseminated, how the shortest-path tree is turned into next hops, and how the
interfaces of the system are kept in step with the kernel. Each function has a
contract over mathematical models of its data, and laws that span functions
stand beside them as proof functions.

- `northbound`: configuration transactions, the typed changes generated from a
  schema, requests of northbound clients, errors and trace options
- `bgp`: attributes and their interning, policies, the RIB and the decision
  process, UPDATE messages, configuration
- `ospf`: SPF of OSPFv2, configuration
- `isis`: configuration, updates from other components
- `bfd`, `igmp`, `keychain`, `ldp`: configuration, and the sockets of BFD
- `interface`: interfaces of the system and their configuration
- `components`: the configuration of each component, as a provider of
  transactions
- `collections`, `prefix_table`, `ip`, `text`, `crypto`, `protocol`: what they
  share

`app/` is the ordinary Rust around it: sockets, files, logs, shared state, and the
loop that takes a transaction to the provider and to its child tasks.
What the library leaves to be done, it returns as values: actions, messages and
requests to the kernel. What others compute comes in as arguments.
