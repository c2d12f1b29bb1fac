# seismology

Tools for seismic data: reading FDSN StationXML station metadata, querying an
earthquake catalogue, building waveform queries for the IRIS/EarthScope services,
miniSEED source identifiers and the window layout of short-term spectrograms.

`src/` is the library, verified with Verus:

- `header`, `numbers`, `time`, `station_xml` — the attribute-list and time-stamp syntax
  of StationXML, decimal-number syntax, instants in UTC, and the document model;
- `sub_state` — the reader's nested states, each with the laws that keep the
  document consistent with the state;
- `document` — cutting a text into XML events (quick-xml) and driving the states;
- `stations`, `fetcher` — station metadata and fetching it through a web client;
- `earthquakes`, `waveforms`, `miniseed`, `spectrogram` — catalogue queries, waveform
  URLs, source identifiers, spectrogram windows.

`app/` is the program around it: HTTP, SQLite, the libmseed bindings, FFT and plots.
