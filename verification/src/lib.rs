pub mod bytes;
pub mod mutf8;
pub mod text;
pub mod access_flags;
pub mod string_map;
pub mod constant_pool;
pub mod attributes;
pub mod attribute_info;
pub mod reader;
pub mod classfile;
pub mod class_reader;
pub mod attribute_reader;
pub mod signature_parser;
pub mod split;
pub mod mappings;
pub mod args;
pub mod colors;
pub mod ui;
pub mod tsrg_trie;
pub mod opcodes;
pub mod attribute_text;
pub mod class_text;
pub mod decompiler;
pub mod order;
pub mod cache;
pub mod remapper;
pub mod pool_display;
pub mod roundtrip;
pub mod renaming;
pub mod extra_sources;
