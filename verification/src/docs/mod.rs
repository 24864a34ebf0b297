//! Documentation that is built from repositories.

pub mod doc_const;
