# Astroid

Programmable, on-chain custody for autonomous agents on Soroban: wallets,
treasuries, budgets, policies, proposals, a multisig, escrows and a registry.

The rules of every contract are a verified library. Each entry point has a
contract that says, for every input, what it returns, how the state changes and
what it asks of the host; the promises that span several entry points are proof
functions beside them.

## Layout

- `src/` – the library, verified by Verus.
  - `errors`, `constants`, `types`, `math`, `validation`, `events` – what the
    contracts share.
  - `host` – the environment of one invocation: the ledger's clock and the log
    of effects (authorizations, token transfers, calls, events) that the host
    carries out. `custody` – what a log of transfers leaves in custody.
  - `table` – keyed storage. `encoding` – the bytes that override signers sign.
  - `access`, `wallet` – custody wallets with roles, a reserve and a breaker.
  - `treasury` – deposits, gated withdrawals, batches, allowances, milestones.
  - `budget` – spending limits with recurring windows, rollover and deficits.
  - `policy` – limits, lists, windows and the pause.
  - `proposal` – approvals, dependencies and deposits.
  - `multisig` – weighted approvals, timelocked governance and atomic batches.
  - `escrow` – locked deposits: release, schedules, milestones, refunds and the
    signature override.
  - `registry` – organizations, modules and versions.
- `app/` – the Soroban contracts around the library: storage, authorization,
  token transfers, cross-contract calls and events.
- `tests/` – tests of the library.

A contract's state is a plain value and an entry point a method on it. The host
fills a `CallEnv`, runs the entry point, stores the state where it returned `Ok`,
and carries out the log in order; where it cannot carry something out, it aborts
the whole invocation, and nothing has happened.
