//! Provider adapters and the helpers they share: request construction and
//! the selector-driven result parser.
pub mod common;
pub mod db_manager;
pub mod directory_manager;
pub mod file_adapter;
pub mod mojeek;
pub mod navigation_manager;
pub mod process_manager;
pub mod search_result_parser;
pub mod startpage;
pub mod udp_connector;
pub mod udp_sender;
pub mod wikipedia;
pub mod xml_manager;
pub mod yahoo;
