//! Converter from a LaTeX-flavoured article-metadata record to a YAML
//! front-matter block followed by a Markdown body.
//!
//! The input grammar is byte-oriented: an unordered set of `key=value`
//! fields terminated by `\par` markers, where the abstract value mixes
//! plain text with `\textit`, `\citeyear` and `\cite` commands.  Citation
//! keys are resolved against an externally supplied bibliography, and the
//! record is rendered as front matter plus a `**Resumo:**` body.

pub mod author;
pub mod bib;
pub mod cite;
pub mod date;
pub mod lit;
pub mod metadata;
pub mod paragraph;
pub mod space;
pub mod summary;
pub mod text;
pub mod unicode;
