pub mod text;
pub mod markdown;
pub mod mdx;
pub mod model;
pub mod dialect;
pub mod auth_tokens;
pub mod embeds;
pub mod routes;
pub mod components;
pub mod db;
pub mod live;
pub mod reader;
pub mod admin;
pub mod widgets;
pub mod home;
pub mod seed;
pub mod startup;
pub mod queries;
