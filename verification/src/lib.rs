//! The decision logic of a terminal dashboard over a pool of tmux workers.
//!
//! A reading of the disk (`model`) and a round of tmux queries (`live`, `blocker`) are put in
//! order (`lineage`, `triage`, `rows`), a state machine turns keys into effects (`app`), and
//! what stands on the screen is computed line by line (`theme`, `paint`, `screen`, `view`).
//! `session` ties them together; whatever can wait or fail is done outside and handed in.
//!
//! What all this promises is stated and proved apart: of texts and times (`wording`, `calendar`),
//! of what tmux shows (`sightings`), of the lists and their order (`listing`, `triage`, `family`),
//! of the keys and the selection (`keys`, `selection`), of what follows from them (`dialogue`,
//! `pages`), of the screen (`drawing`, `room`, `colouring`) and of the command line (`orders`).

pub mod action;
pub mod app;
pub mod blocker;
pub mod calendar;
pub mod cli;
pub mod colouring;
pub mod dialogue;
pub mod drawing;
pub mod family;
pub mod keys;
pub mod lineage;
pub mod listing;
pub mod live;
pub mod model;
pub mod orders;
pub mod pages;
pub mod paint;
pub mod registry;
pub mod room;
pub mod rows;
pub mod screen;
pub mod selection;
pub mod session;
pub mod sightings;
pub mod stamp;
pub mod text;
pub mod textmap;
pub mod theme;
pub mod triage;
pub mod view;
pub mod wording;
