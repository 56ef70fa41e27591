# partman

A partition manager for block devices with an MBR or a GUID partition table, verified
with Verus.

- `src/` is the library. `cmdline` reads `root=` and `rootfstype=` from a kernel
  command line, `parse` reads `/dev/` device paths, `mbr` and `gpt` hold the partition
  table structures, `setup` decides step by step how a disk's partition table is
  detected, `partition` is the partition manager itself, and `laws` states and proves
  the properties that relate these parts.
- `app/` runs the detection against a `PartBlock` device, parses GPT structures in
  place with `gpt_parser`, and holds the floating-point usage percentage and the text
  rendering of an MBR partition.
- `tests/` exercises the library on concrete command lines, device paths and disks.
