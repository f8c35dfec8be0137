use vstd::prelude::*;

pub mod account;
pub mod battle;
pub mod battle_tables;
pub mod command;
pub mod confgen;
pub mod config;
pub mod items;
pub mod login;
pub mod packet;
pub mod progression;
pub mod protocol;
pub mod sdk;
pub mod table;
pub mod text;
pub mod transaction;

verus! {

} // verus!
