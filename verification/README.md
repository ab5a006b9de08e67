# tikv_client

A client library for TiKV, a distributed transactional key-value store. The logic of the client is
verified with Verus; what sends requests and waits stands around it.

* `src/kv`: keys, ranges of keys, and the encoding under which their bytes compare like the keys.
* `src/request`: keyspaces, plans and their builder, and what becomes of each request once its peer
  is chosen: what region errors ask for, when it is tried again, how results are put together.
* `src/region_cache`: the cache of regions and stores, with its invariant and the time to live.
* `src/pd`: regions and stores as the placement driver tells of them, and the grouping of keys and
  ranges by region.
* `src/transaction`: the resolution and the removal of locks.
* `src/store`: what is set on requests, and what responses tell of failure.
* `src/proto`, `src/common`: messages, errors and small helpers.
* `app`: the asynchronous side, which performs the actions that the library decides on.
* `tests`: tests of the library.

What alternates between waiting and deciding is a state machine in the library: a step takes an
event and gives the next action. The contract of each step says which action that is; the proof
functions whose names begin with `law_` say what holds of the library as a whole.
