# vintage_kvm

The logic of a bridge between a modern host and a vintage PC: it speaks PS/2 on the
keyboard and mouse connectors and IEEE 1284 on the parallel port.

`src/` is a Verus library. Everything in it is verified:

| Module | What it is |
|--------|------------|
| `packet`, `crc`, `packet_stream` | wire packets, their CRCs, and packets out of a byte stream |
| `block_source`, `cap`, `protocol` | the dispatcher: capabilities, ping, block download |
| `ps2_framer` | PS/2 frames out of line samples, frame packing, host classification |
| `ps2` | samplers, transmitters, the bootstrap script, mouse packets |
| `lpt` | parallel port modes, their programs, mode switching, negotiation |
| `pio_asm`, `pio_config`, `pio_machine`, `dma` | state machine programs, settings and what they do |
| `status`, `telemetry`, `lifecycle` | status light and telemetry |

Two crates are called from the library: `heapless` for buffers (`fixed_vec`) and `pio`
for its assembler (`pio_asm`). What is believed of them is written above each call.

`app/` is the firmware around the library: peripherals, tasks and sleeps on an RP2350.
It expects the Stage 0 program between the linker symbols `STAGE0_AT_START` and
`STAGE0_AT_END`.
