#![allow(non_snake_case)]
#![allow(unused_imports)]

pub mod defines;
pub mod squares;
pub mod notation;
pub mod zobrist;
pub mod board;
pub mod attack;
pub mod history;
pub mod movegen;
pub mod generated;
pub mod kings;
pub mod fen;
