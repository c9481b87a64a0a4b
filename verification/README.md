# hemsd

The decisions of a home-energy daemon, proved with Verus: which readings a box
believes, what it counts as a quarter-hour, what it asks a planner, whom it trusts,
what it answers, and what it sends on.

## Layout

- `src/` is the library. Every function states in its contract what it returns or
  changes.
  - `text`, `names`, `clock`: texts and numbers, maps by name, instants and days.
  - `site`, `config`: the household and what an operator may write about it.
  - `drivers`: who speaks for which device, and the picture that follows.
  - `forecasting`, `backtest`, `render`, `report`, `cli`: a simulated day, its
    statistics and how both are printed and delivered.
  - `runtime`: the running box — control loop, planner inputs, day accounts,
    overrides, access, local surface, outbox, SHIP, S2 and transports.
- `app/` is the program around it: arguments, files, sockets and serialisation. It
  reads the configuration file with the `toml` crate.
- `tests/` runs the library on concrete values.

## Units

Instants are nanoseconds since the Unix epoch, power is in milliwatts, energy in
milliwatt-hours, and shares and prices are in millionths. Days are Julian days of
the German calendar.

## What is taken on trust

Calls into other crates stand behind small functions marked
`#[verifier::external_body]`. The comment above each names the call and says what is
claimed of it; everything else is proved.
