//! Verified game-logic core of the Crystal MMORPG server: map parsing and
//! collision, social managers (group, guild, trade, market, mail), quests,
//! item and spell tables, merchants, combat and movement rules, bag and
//! storage rules, the life of a client connection, and wallet-login checks.

pub mod maps;
pub mod names;
pub mod group;
pub mod guild;
pub mod trade;
pub mod market;
pub mod text;
pub mod web3;
pub mod items;
pub mod types;
pub mod magics;
pub mod quest;
pub mod spawn_config;
pub mod world;
pub mod entities;
pub mod combat;
pub mod chat;
pub mod net;
pub mod account;
pub mod db;
pub mod inventory;
pub mod services;
pub mod session;
pub mod mail;
pub mod objects;
pub mod shop;
pub mod game;
pub mod party;
pub mod bag;
pub mod packets;
pub mod connection;
pub mod replies;
