# deadman

A dead man's switch: a vault that is shared out among whitelisted
beneficiaries once its owner stops sending heartbeats, with multi-signature
emergency access and a bounded audit trail. The library is written in Verus
and its behaviour is proved against specifications.

Layout of `src/`:

- `strmap.rs`: association lists keyed by strings (`StrMap`) and string sets
  (`StrSet`), each key kept once.
- `text.rs`: decimal and hexadecimal rendering of numbers, joining of text.
- `rounding.rs`: binary64 rounding computed exactly in integers, for the
  shares of a distribution.
- `clock.rs`: the system clock and fresh identifiers, behind small wrappers
  around `std::time` and `std::hash`.
- `types.rs`: beneficiaries, audit entries, emergency requests, status
  reports, with their views.
- `model.rs`: the abstract state of a switch and what each operation does to it.
- `switch.rs`: `DeadmanSwitch` and its methods, proved to follow `model.rs`.
  Operations that depend on the moment come in two forms: one that takes the
  moment as an argument, and one that reads the system clock.
- `laws.rs`: properties that hold across operations (allocations within 100%,
  distributions within the funds, heartbeats restarting the clock, ...).

`app/main.rs` is the demonstration program; it also writes a switch to JSON
and reads it back through copies of the types that derive `serde`'s traits.
