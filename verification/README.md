# camjongun

The registry, identity and runtime rules of the CamJongUn virtual-camera SDK,
written in Verus with their contracts.

- `src/` is the verified library: result codes and errors (`result`), device
  identifiers (`device_id`), the data model (`model`), device identities
  (`identity`), the registry's line format (`codec`, on `text`), the registry
  itself (`registry`), the platform reports and built-in backends
  (`platform`), and the runtime and producer streams (`runtime`).
- `app/` is the `camjongunctl` program, the installer helper (the same program
  run under the name `camjongun-installer-helper`) and the C ABI: it probes
  the host, reads and writes the registry file, and reads the clock.
- `tests/` exercises the library.

The runtime's contracts speak of its platform backend through answer
relations: each backend says which answers it may give to a request, the
built-in ones exactly. The runtime and each stream keep a ghost log of the
requests they made and the answers they got, and every operation states what
it asked, with which arguments, and how the answer decided its result.
