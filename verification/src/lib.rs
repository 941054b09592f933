//! Checks of documentation comments: documented parameters that the function
//! does not have, and misspelled words in prose.
//!
//! A host walks the declarations of a program and hands each one over with
//! its attributes ([`host`]). The raw comment lines become one text block
//! ([`helpers`]). The check of parameters ([`doc_params_mismatch`]) reads the
//! sections of the block ([`sections`]) and compares the documented names
//! with the real ones. The spelling check ([`spelling_error`]) reads the
//! blocks of the text ([`blocks`]), walks them for their prose ([`walker`])
//! and turns what a dictionary says of each run of prose into diagnostics.
//! The dictionary itself is asked by the caller.

pub mod blocks;
pub mod doc_params_mismatch;
pub mod helpers;
pub mod host;
pub mod sections;
pub mod spelling_error;
pub mod walker;
