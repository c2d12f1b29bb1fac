//! Seismology data tooling: the FDSN StationXML reader's state machine, the attribute
//! and time-stamp syntax it reads, station metadata, earthquake-catalogue queries,
//! waveform queries and miniSEED source identifiers.

pub mod document;
pub mod earthquakes;
pub mod error;
pub mod fetcher;
pub mod header;
pub mod miniseed;
pub mod numbers;
pub mod spectrogram;
pub mod station_xml;
pub mod stations;
pub mod sub_state;
pub mod text;
pub mod time;
pub mod waveforms;
