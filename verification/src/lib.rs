//! A chess rules engine with a bounded game-tree search, and the logic of a
//! small board game console around it.
//!
//! Squares are numbered 0..63 with a1 = 0 and h8 = 63: the rank of a square
//! is `index / 8` and its file is `index % 8`.
//!
//! The rules: `types`, `position` and `move_list` hold the values; `attack`
//! says which squares are attacked, `movegen` which moves the pieces offer,
//! `apply` what a move does, and `legal` which moves are legal; `rules`, `once`,
//! `attack_laws`, `soundness`, `exchange` and `laws` hold what is proved of
//! them. The search: `zobrist`, `eval`, `ordering`, `table`, `quiescence`, `ai`
//! and `book`. The console: `engine`, `game`, `interaction`, `debounce`, `menu`,
//! `ui` and `text`.
pub mod types;
pub mod position;
pub mod move_list;
pub mod attack;
pub mod attack_laws;
pub mod apply;
pub mod movegen;
pub mod soundness;
pub mod rules;
pub mod once;
pub mod legal;
pub mod engine;
pub mod laws;
pub mod zobrist;
pub mod eval;
pub mod ordering;
pub mod book;
pub mod exchange;
pub mod table;
pub mod quiescence;
pub mod ai;
pub mod interaction;
pub mod game;
pub mod debounce;
pub mod menu;
pub mod ui;
pub mod text;

pub use types::{CastlingRights, Color, Move, Piece, PieceKind};
pub use position::{GameState, Position};
pub use move_list::MoveList;
pub use engine::{Engine, MoveError};
