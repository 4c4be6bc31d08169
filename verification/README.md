# betterbot

The decisions of a trading desk for prediction markets, with proofs in Verus.

* `src/base`: numbers in their order, text, tables, settings, time and identifiers.
* `src/signals`: how signals are found, checked, kept, put in context and compared, and how
  a wallet is judged and followed.
* `src/vault`: the strategies, their stakes, the ledger, the pool and the execution of
  orders.
* `app`: what surrounds the library. It talks to exchanges and models, keeps the database,
  reads the clock, and computes in floating point.

The library holds no floating-point numbers. A `Scalar` is the place of such a number among
all of them: it is compared, sorted, bounded and stored in the library. Sums and products
are worked out in `app` and handed to the library, which says what becomes of them.

Work that waits for a service is cut into steps. Each step is a function from what is known
and what came back to what is asked next, and each has a contract of its own.
