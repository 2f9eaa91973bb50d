# albor

A 5G NR gNodeB stack whose protocol logic is written in Verus and proved
against its contracts.

- `src/` — the verified library:
  - `common/`: cell identities, PLMN encoding, bit packing, timing tables.
  - `layers/phy/`: frame structure and SSB patterns, PSS/SSS sequences,
    Gold/DMRS sequences, MIB/PBCH encoding (CRC, polar code, rate matching,
    scrambling), PDCCH and PDSCH chains (LDPC, segmentation, RE mapping),
    PRACH configuration, the resource grid, CP lengths, the resampler clock
    and the per-symbol downlink planner.
  - `layers/mac/`: SSB/SIB1 scheduler, SIB1 encoding, RNTI allocation and
    random access bookkeeping.
  - `layers/`: RLC, PDCP, RRC and NGAP state machines and message codecs.
  - `interfaces/`: message types, the ZMQ RF link state and its transmit ring.
  - `gnb/`: configuration types, PLMN parsing and ARFCN arithmetic.
- `tests/` — tests of the library on concrete values.
- `app/` — the gNodeB program: configuration loading, sockets, threads,
  async tasks and all floating-point signal processing (constellation
  mapping, IFFT, correlation, filtering), driving the library.

Outside crates used by the library (`bytes`, `zmq`, `serde_json`) are
reached through small trusted wrappers and type declarations whose
contracts state what their documentation promises.
