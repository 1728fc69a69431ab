# RootCause core

The decision logic of the RootCause Windows inspector, verified with Verus:
process classification, anomaly rules and their tracker, alerts and
incidents, the ETL trace summary, baselines of watched surfaces, the local
network scan, the agent's resilience checks, and the scripts handed to the
Windows tools.

- `src/` — the verified library. Every public function states what it returns
  (or how it changes its `&mut` argument) over spec functions and views; the
  laws the library keeps are public proof functions next to the code they are
  about.
- `tests/` — tests run against the compiled library.
- `app/` — the console front end: it reads the process table, `netstat`, files
  and the Windows tools, hands plain values to the library and prints the
  result.

Floating-point measurements never enter the library: they are compared with
their thresholds and rendered as text where they are read, and the library
works on those outcomes.
