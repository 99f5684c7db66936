//! What a terminal front end needs of the game: the events it reports, the
//! actions they stand for, and the screens the game moves between.

pub mod action;
pub mod event;
pub mod ui;
pub mod widgets;
