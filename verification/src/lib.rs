//! A store of small documents, called entries, that live under path-like ids: the store
//! itself with its cache and its backends, the ids, the entries and their form as text, and
//! what is built on them: references to files, mail, and the decisions of front ends.
pub mod error;
pub mod text;
pub mod strmap;
pub mod storeid;
pub mod normal_form;
pub mod value;
pub mod codec;
pub mod entry;
pub mod file_abstraction;
pub mod store;
pub mod iter;
pub mod hasher;
pub mod reference;
pub mod refstore;
pub mod generators;
pub mod mail;
pub mod runtime;
pub mod header_filter;
pub mod tag;
