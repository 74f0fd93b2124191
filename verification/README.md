# movethebytes

Test plans that move bytes between the instances of a testground run: over
TCP, over QUIC, and with the krakensync protocol, with or without a shaped
network.

The library in `src/` decides what an instance does: which part it takes, where
it is reached, what it announces, whom it dials, what it fetches, and when it is
done. `session::Session` is the run of one instance. It names the next action;
whoever runs it takes the action and reports the event that came of it. All of
it is verified with Verus: `protocol` states which step follows which, `laws`
what holds of every run, `runs` what whole runs look like, `together` what holds
of all the instances of a test run.

The program in `app/` takes the actions: it talks to testground, opens
connections and loads content. `MOVETHEBYTES_PLAN` names the plan to run.

| plan                | listeners announce on | port  | dialers                       |
|---------------------|-----------------------|-------|-------------------------------|
| `tcp`               | `server`              | 1234  | connect                       |
| `quic`              | `server`              | 4000  | connect                       |
| `krakensync`        | `responders`          | 31131 | fetch, and report how long    |
| `krakensync-shaped` | `responders`          | 31131 | fetch, on a shaped network    |
