# stellar_send

A payment contract for the Soroban host with recurring payments: a payer opens a
subscription once, and anyone may trigger its payments when they are due. The library is
written in Verus: every operation states the exact change that it makes to the contract's
storage and the exact requests that it makes of the host.

* `src/fee.rs`, `src/schedule.rs`: the rules, free of the host.
* `src/ledger.rs`: storage and host exchanges as mathematical values.
* `src/config.rs`, `src/subscription.rs`: the contract's operations.
* `src/host.rs`: the calls into `soroban_sdk`. Their contracts are taken on trust.
* `src/laws/`: what holds of fees, subscriptions from opening to end, bursts of payments,
  the two indexes, how long entries last, the storage as a whole, and whole histories of
  calls.
* `app/`: the deployable contract around the library.
* `tests/`: tests on the real host with a real asset.
