//! Annotations, tags, review marks and view state of a diff viewer.

pub mod anchor;
pub mod annotation_list;
pub mod api;
pub mod api_handler;
pub mod api_laws;
pub mod cli;
pub mod cli_laws;
pub mod clock;
pub mod diff;
pub mod diff_laws;
pub mod editor_laws;
pub mod filter_laws;
pub mod filters;
pub mod ids;
pub mod json;
pub mod keys;
pub mod marks;
pub mod marks_laws;
pub mod persistence;
pub mod persistence_jobs;
pub mod persistence_laws;
pub mod review;
pub mod scope;
pub mod seqs;
pub mod state;
pub mod state_laws;
pub mod storage;
pub mod store_laws;
pub mod tag_editor;
pub mod tag_names;
pub mod tags;
pub mod text;
pub mod text_laws;
pub mod view_laws;
pub mod view_state;
pub mod viewer;
pub mod viewer_marks;
pub mod viewer_event_laws;
pub mod viewer_events;
pub mod viewer_laws;
pub mod viewer_dialogs;
