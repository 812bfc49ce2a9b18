# rocketmq_client

The logic of a RocketMQ client, verified with Verus: producers, transactional producers, pull
consumers, lite pull consumers, and the client instance that they share.

* `src/` is the library. It holds what a client decides and computes: queue selection, retries
  and their budgets, back pressure, asynchronous attempts, transactions, batches, pop handles,
  routes, registrations, subscriptions, offsets, and what requests and answers say. Every
  function with a body has a contract; the methods that users implement have none. Properties
  that span several functions are stated as proof functions whose names begin with `law_`.
* `app/` is the part around it: tasks, timers, locks, and the traits through which a transport,
  a codec and an address server are plugged in. It performs what the library asks for and hands
  back what came of it.
* `tests/` runs the library on concrete values.

The library calls `serde_json` to describe publish information (`src/json.rs`) and `chrono` to
read and write wall clocks; where a choice is left to chance, the clock of the standard library
makes it (both in `src/clock.rs`). What is taken on trust of those calls stands there, next to
each of them.
