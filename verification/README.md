# dotless

The verified core of a Polkadot inflation dashboard. It ingests
`Staking::EraPaid` events from Asset Hub and serves an inflation chart.

- `src/` is the library, proved with Verus: the block searches of the
  ingestor (`search`), the sync plan and event records (`ingest`), the event
  list (`data`), decimal text (`decimal`), settings (`settings`), the
  calendar side of the chart (`chart`), and the calls into `chrono`
  (`timefmt`). The `chrono` calls are trusted: their contracts are read
  from `chrono`'s source and documentation, not proved.
- `app/` is the server around it: chain access, HTTP, the live block feed,
  JSON files and the floating-point chart.
