# epp_router

The decisions of a router-only endpoint picker, verified with Verus.

A gateway asks the picker where to send each request. The picker tokenizes the
prompt, books it with an in-process selection service that knows every worker's
load and cache, and answers with the worker's address and routing headers. It
also keeps the service's worker catalog in step with the pods that are ready.

- `src/` decides, and proves what it decides. It holds no sockets, clocks or
  tasks: functions take what happened and say what to do next.
  - `epp_router`, `reservations`, `readiness`: picks, bookings, startup
  - `selector`, `reconcile`, `selection`, `worker`: the selection service and
    its catalog
  - `hints`, `picker`, `text`: priorities, gateway types, text
  - `routed_engine`: how a generation is tied to the request behind it
- `app/` performs: it runs the selection service, serves the gateway's calls and
  bridges to Python.
- `tests/` runs the library from outside.

Laws that relate several functions stand beside them as public proof functions
whose names start with `law_`.
