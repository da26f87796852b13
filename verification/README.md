# acs

An anonymous credit system. Clients earn credit tokens by proof of work, and spend, split and
combine them without revealing who they are. The server signs tokens and records which ones are
used up, so that none is spent twice.

The cryptography comes from `anonymous-credit-tokens`; it is experimental and unaudited. What is
proved here, with Verus, is the system around it.

## Layout

- `src/scheme.rs`: the types and operations of the token scheme, and what is taken for granted of
  them.
- `src/pow.rs`: proof of work and what it is worth.
- `src/protocol.rs`: requests, responses and the ways to refuse.
- `src/tls.rs`: the server's certificates and key, out of PEM text.
- `src/server/`: the sharded database (`shards`), the files that keep it (`key_file`), the issuer that works requests off step by step
  (`issuer`), the mathematical account of what it does (`model`), the records it works against
  (`records`), and what holds of all of them together (`laws`).
- `src/client.rs`: what a client sends and what it makes of the answers.
- `src/laws.rs`: what becomes of the value of tokens between client and server.
- `src/codec.rs`, `src/text.rs`: tokens as bytes and hexadecimal text, numbers as text.
- `src/commands/`: the commands of the command line, turn by turn.
- `src/wallet.rs`: what becomes of the rows of the user's database of tokens.
- `src/config.rs`: where the server is.
- `src/load_test.rs`, `src/metrics.rs`: simulated users and what is measured of them.
- `app/`: the program around the library: HTTPS, files, databases, terminal.
- `tests/`: tests that run the library with the real token scheme.

## What is proved

Among other things:

- no token is spent twice, in whatever order requests come and however they overlap;
- a nullifier that was written down is known again after a restart;
- a proof of work is good for one token, worth two to the number of its zero bits;
- splitting and combining neither make nor lose credits, and spending leaves the rest;
- a refused request leaves the records as they were, unless a token had to be used up first;
- in the commands of the command line, a token leaves the user's database only after what replaces
  it has been stored, or because the user wants it to (the simulated users of a load test delete a
  token before they store its parts);
- a token that is stored and loaded, or exported and imported again, keeps its nullifier and its
  credits, and is written in the same way once more.

## Running

Without a command, `acs` runs the server.

```bash
acs
acs issue --bits 10
acs list
acs spend --id 1 --amount 5
acs split --id 1 --amounts 3,4
acs combine --ids 2,3
```
