//! Core storage and business logic of a comic translation helper: projects,
//! images, markers, plugin-provided OCR/translation services, and the
//! LabelPlus / image header formats, with their behaviour stated as
//! contracts and proved.
#![allow(unused_imports)]

pub mod image_data;
pub mod image_service;
pub mod image_events;
pub mod dimension_extractor;
pub mod dimension_laws;
pub mod bf;
pub mod bf_archive;
pub mod bf_laws;
pub mod bunny_cache;
pub mod bunny_service;
pub mod cancellation;
pub mod checksum;
pub mod clock;
pub mod collections;
pub mod dto;
pub mod error;
pub mod events;
pub mod executor;
pub mod image;
pub mod io_events;
pub mod io_service;
pub mod ids;
pub mod labelplus;
pub mod labelplus_points;
pub mod labelplus_import;
pub mod labelplus_export;
pub mod labelplus_laws;
pub mod export_laws;
pub mod language;
pub mod marker;
pub mod marker_api;
pub mod marker_convert;
pub mod marker_service;
pub mod marker_laws;
pub mod opening_handlers;
pub mod opening_service;
pub mod opening_project;
pub mod paths;
pub mod plugin_manager;
pub mod plugin_sdk;
pub mod project;
pub mod project_data;
pub mod project_service;
pub mod queued_task;
pub mod sorting;
pub mod state;
pub mod stats;
pub mod strmap;
pub mod task_manager;
pub mod task_queue;
pub mod undo_actions;
pub mod undo_stack;
pub mod undo_performer;
pub mod undo_check;
pub mod undo_service;
pub mod history_laws;
pub mod text;
pub mod textscan;
pub mod thumbnail;
