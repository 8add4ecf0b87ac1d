# lessbad

The verified core of LessbadOS, a small x86_64 hobby kernel.

`src/` is a Verus library:

- `address`: canonical virtual addresses, physical addresses and 4 KiB page
  alignment, through the `x86_64` crate.
- `frames`: the boot frame allocator, which hands out the frames of the usable
  regions of the boot memory map in order; proofs that every frame is aligned
  and holds an address of a usable region, and that on a map of frame-aligned,
  ascending regions every frame starts inside a usable region and none is
  handed out twice.
- `heap`: the plan that maps the kernel heap, as a state machine driven by the
  frame allocator's and the mapper's answers; proofs that a successful run maps
  every heap page once, in order, and that the pages cover the heap exactly.
- `paging`: where the level-4 page table is reachable.
- `gdt`: the TSS with its double-fault stack and the global descriptor table
  with its selectors.
- `interrupts`: PIC interrupt vectors and keyboard scancode decoding through
  `pc_keyboard`, with the decoder's state (pending 0xE0 prefix, modifier keys)
  and its effect on each byte stated.
- `testing`: QEMU exit codes and the order of a kernel test run.

`app/` is the kernel binary: boot entry, port I/O, page-table writes, interrupt
handlers and console output, all driven by the library.
