# sev_ghcb

The guest side of the AMD SEV-ES/SEV-SNP guest-hypervisor communication block
(GHCB), verified with Verus.

- `src/bytes.rs`: numbers as bytes in memory.
- `src/kernel_launch.rs`: what the kernel is told when it is launched.
- `src/sev/layout.rs`, `bitmap.rs`: the page: where each field stands, and which
  fields are marked valid.
- `src/sev/page_state.rs`: the request to change the state of pages.
- `src/sev/ghcb.rs`: the GHCB, its setters, port I/O requests and their results,
  and the calls that share the page with the hypervisor and take it back.
- `src/sev/io_port.rs`: port access by bytes and words.
- `src/sev/platform.rs`: platform calls, made one after the other up to the
  first that fails.
- `src/sev/lifecycle.rs`, `laws.rs`: what holds of the life cycle and of the
  GHCB as a whole.
- `app/`: makes the platform calls and holds the shared page.
