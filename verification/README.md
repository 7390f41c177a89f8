# azpos_kernel

The logic of a small x86_64 hobby kernel, written in Verus and proved
against its contracts:

- `src/memory`: the first-boot frame allocator, the reference-counting page
  allocator, the kernel heap's bump allocator, kernel stack slots, user page
  flags and MMIO bitfields.
- `src/scheduling`: the round-robin scheduler (least-run thread first), its
  thread table and the bounded FIFO buffer.
- `src/devices`: the framebuffer and text terminal, keyboard scancodes, PCI
  enumeration, the PIC's vectors, the driver registry, and the storage
  drivers' encodings (MBR, ATA ports and drive probing, AHCI command setup).
- `src/filesystem`: paths and the FAT32 boot record, allocation table,
  directories and mounting.
- `src/processes`: checking ELF images and planning where their segments
  go, and the resources processes read and write.

`app/` is the kernel around it: booting, port and memory-mapped I/O, page
tables, interrupts and the global state, none of it verified. `tests/`
runs the library on concrete values.
