//! Verified domain logic of the Wavora local music player: track identity,
//! playback queue semantics, the lyrics format, localization tables,
//! persistence state, and the pure rules of media scanning and the catalog.

pub mod ids;
pub mod playback;
pub mod queue;
pub mod text;
pub mod lyrics;
pub mod media;
pub mod paths;
pub mod catalog;
pub mod i18n;
pub mod track;
pub mod config;
pub mod visuals;
pub mod pages;
pub mod ui;
pub mod audio;
pub mod library_events;
pub mod library_view;
pub mod transport;
pub mod artwork;
pub mod playlist_view;
pub mod uri;
pub mod startup;
