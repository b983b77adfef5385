# kalico_motion

The decisions of a 3D printer's motion host, verified with Verus: from fitted moves to the
frames that leave for the motor controllers, and back from their reports.

| Module | What it decides |
| --- | --- |
| `geometry` | the velocity plan of a window, its reconstruction, and easing attempts |
| `nurbs` | knot vectors, spans, refinement and the shape of derivatives |
| `pipeline` | when the planner plans and commits, holds around motion, jerk limits |
| `worker` | the committed frontier, submission, pacing and dispatch |
| `pump` | execution credit, barrier receipts, lanes, drips, traces, endpoint commands |
| `homing` | the life of a homing run, from registration through trips to recovery |
| `host_io` | events, commands, field encoding and the retransmission timer of an mcu link |
| `protocol` | the bootstrap messages and result codes |
| `endpoint` | the EtherCAT endpoint's helpers and simulated drives |
| `runtime_api` | the guards of the runtime's C entry points |
| `mcu_log`, `text`, `sorted` | message rendering and small shared parts |

Floating point stays outside the library. A number that is only compared enters as an
order key: an integer that compares with other keys as the numbers compare.

`app/` holds the ordinary Rust around the library: clocks, threads, channels, logging and
the floating-point kernels. `tests/` runs the library with the real outside crates.
