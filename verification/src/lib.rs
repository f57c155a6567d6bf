//! A Chinese chess (xiangqi) game for the terminal, played in Chinese move
//! notation against a UCI engine: the rules of the game as the engine
//! reports them, move notation, the engine protocol, the AI strength levels,
//! and the application state that ties them together.
pub mod app;
pub mod board;
pub mod builtin;
pub mod cli;
pub mod display;
pub mod game;
pub mod iccs;
pub mod keys;
pub mod notation;
pub mod rules;
pub mod screen;
pub mod session;
pub mod skill;
pub mod text;
pub mod uci;
