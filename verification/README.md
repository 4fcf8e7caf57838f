# mushix

A driver for xHCI USB host controllers and for USB mass storage behind them, as a library
of verified decisions and a thin program around it.

`src/` computes everything and touches no hardware: blocks, rings, contexts, descriptors,
register values, and the order in which requests follow each other. A function that changes
memory or registers appends what is to be stored to a list of `Store`s. A function that
depends on what the hardware says takes the value that was read. A task (`xhci::driver`,
`xhci::storage`) answers each reply with the next operation (`xhci::op`).

`app/` owns the hardware: it reads registers and shared memory, performs the stores in
order, waits for events, and hands what came back to the library. It expects memory to be
mapped where devices see it.

- `bits`, `bytes`: bit fields and byte order
- `cbw`, `scsi`: SCSI commands over bulk-only transport
- `mbr`, `text`: what the first sector and string descriptors say
- `serial`: the monitor of the serial port
- `xhci::entry`, `xhci::stages`, `trb`: transfer request blocks
- `xhci::ring`, `xhci::event`, `xhci::store`: rings, events, and what goes into memory
- `xhci::port`, `xhci::registers`, `xhci::context`: registers and contexts
- `xhci::descriptor`: USB descriptors
- `xhci::controller`: setting a controller up, and the requests that go through it
- `xhci::startup`: resetting, setting up and starting a controller, in this order
- `xhci::endpoints`: which ring the transfers of which endpoint go through
- `xhci::storage`, `xhci::driver`: mass storage, and serving all ports
