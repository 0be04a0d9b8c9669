# reqwest-ssrf-guard

An access-control list for outgoing HTTP requests, verified with Verus. It keeps
a server that fetches URLs for others from being led into its own network: host
names are judged before they are resolved, addresses after, and URLs before they
are requested. In every layer an explicit allow rule wins over a deny rule.

```rust
let acl = Acl::new()
    .deny_local_network()
    .deny_host_suffix(".internal.corp")
    .allow_cidr(IpNet::new(address, 32).unwrap());

acl.validate_url(&url)?;
```

## Layout

- `src/` is the verified library.
  - `acl.rs`: building a list, and judging hosts and addresses.
  - `rule.rs`: rules, and how the rules of one layer decide together.
  - `target.rs`, `error.rs`: judging URLs.
  - `resolve.rs`: judging a name while it is being resolved.
  - `addr.rs`, `net.rs`, `local.rs`, `display.rs`: addresses and networks.
  - `text.rs`: the form in which host names are compared.
  - `laws/`: what holds of every list.
- `app/` wires a list into `reqwest` and `reqwest-middleware`: the DNS resolver,
  the redirect policy and the middleware.
- `tests/` holds the tests.

## Predicates

A rule may rest on a closure of the caller's, which may read state that changes.
The contracts therefore speak of what the rules *can* answer
(`may_answer_ip`, `may_decide_host`, `may_validate`). Where every rule has just
one answer, as the built-in rules have, so has the list: see
`laws::rules::law_settled_rules_decide` and
`laws::policies::law_settled_answer`.

## What is trusted

The contracts of a few outside functions are stated, not proved:
`ipnet::Ipv4Net::contains`, `ipnet::Ipv6Net::contains`, `url::Url::scheme`,
`url::Url::host`, and from the standard library `str::to_ascii_lowercase`,
`<String as From<&str>>::from`, `<Item as From<Item>>::from` and the printed form of an IPv6 address.
