pub mod attributes;
pub mod backend;
pub mod cache;
pub mod category;
pub mod code_blocks;
pub mod components;
pub mod config;
pub mod feeds;
pub mod generator;
pub mod image;
pub mod indices;
pub mod markdown;
pub mod metadata;
pub mod navigation;
pub mod orchestrator;
pub mod pagination;
pub mod parser;
pub mod recent;
pub mod renderer;
pub mod robots;
pub mod scaffold;
pub mod search;
pub mod server;
pub mod shortcodes;
pub mod sitemap;
pub mod slug;
pub mod syntax_highlighter;
pub mod text;
pub mod tree_sitter_highlighter;
pub mod types;
