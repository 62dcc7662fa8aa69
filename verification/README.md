# ARC700 SoC model

A model of an EPON ONU system-on-chip around an ARC700 core: SRAM behind a
write-back data cache and an instruction cache, SPI flash, the peripheral bank
with its registers, the MAC, the classifier engine, and the front end that
inspects and drives the machine. The library states what its functions do in
contracts, and Verus proves them.

## Layout

- `src/memory/`, `src/cache.rs` - SRAM, the caches, the data port of the core,
  the observers, DMA and the watchpoints.
- `src/peripherals/` - UART, SPI flash and the controller in front of it.
- `src/soc/` - the peripheral bank and its blocks; `src/soc/lue/` is the
  classifier: rules, the table port and the engine; `src/soc/olt.rs` is the link
  to the far end; `src/soc/scenario.rs` is outside stimulus: overrides, events
  and watchpoints.
- `src/soc/analysis.rs` - patterns and timelines in the history of accesses.
- `src/mcp/` - what the front end reads from the machine and asks of it, as
  plain values.
- `src/text.rs`, `src/number.rs`, `src/order.rs`, `src/bits.rs` - strings,
  numbers and ordered lists.
- `app/` - the server, the tools it offers and their JSON forms.
- `tests/` - the behaviour of each block on concrete values.

Each block has a model of plain values (a `...State`) that its view gives.
Contracts say what the model is after a call. The functions named `law_...`
state what holds across calls: what a read gives back of a write, what stays
unchanged, what is counted.

Three things are taken on trust: what `String::push` appends, and what
`String::from_utf8_lossy` and `serde_json::from_str` make of their argument.
