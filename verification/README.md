# lib

Device models of a virtual machine monitor, verified with Verus: the
emulated xHCI USB host controller (its register file, command and transfer
rings, event ring, device slots and root hub), the decisions of a USB device
passed through from the host, a PCI root bridge with its configuration
space, an AC97 bus master's registers, an MMIO address bus and byte-level
MMIO register spaces, and the buffer layout of GPU buffers.

- `src/` is the library. Guest memory is modelled as a list of regions of
  bytes; every data structure has a view in terms of `Seq`, `Map` and
  integers, and every public function states in its contract what it
  returns and how it changes its arguments.
- `tests/` runs the library on concrete values.
- `app/` holds what cannot be verified: the loop that carries out the
  controller's decisions (waking ring consumers, raising the interrupt),
  threads, callbacks run on drop, and the bindings to the GBM library.
