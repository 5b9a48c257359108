# fanga

The logic of the FangaOS kernel as a verified library.

- `src/` — the library, checked by Verus: address arithmetic, the page
  table walk, the physical page allocator, the heap free list,
  copy-on-write, mmap, demand paging, LRU, swap and protection
  bookkeeping; ELF parsing and loading; the in-memory file system, paths
  and file descriptors; Ethernet, ARP, IPv4, UDP, TCP, DHCP and the E1000
  driver's register logic; the keyboard, mouse, PIC, PIT, APIC, GDT, IDT
  and system call decisions; the console, logger, line editor, input
  queue, virtual terminals and the framebuffer text cursor.
- `tests/` — tests of the library.
- `app/` — the kernel image around the library: the bootloader requests,
  port and memory-mapped I/O, interrupt entry stubs, the global state
  behind locks, and drawing on the screen.
