pub mod activation;
pub mod appname;
pub mod combo;
pub mod combo_laws;
pub mod custom;
pub mod engine;
pub mod host;
pub mod icon;
pub mod keys;
pub mod macagent;
pub mod model;
pub mod numfmt;
pub mod page;
pub mod parse;
pub mod pins;
pub mod proto;
pub mod rail;
pub mod schema;
pub mod session;
pub mod settings;
pub mod store;
pub mod text;
pub mod winhook;
