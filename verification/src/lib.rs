//! Verified core of the lineark command-line client for Linear: name resolution,
//! list filtering and ordering, row shaping, flag validation and the small text
//! conventions that the commands share.

pub mod text;
pub mod ids;
pub mod seqs;
pub mod resolve;
pub mod cycles;
pub mod issues;
pub mod labels;
pub mod embeds;
pub mod profile;
pub mod update_hint;
pub mod dates;
pub mod comments;
pub mod documents;
pub mod milestones;
pub mod teams;
pub mod users;
pub mod projects;
pub mod initiatives;
pub mod notifications;
pub mod relations;
pub mod viewer;
pub mod output;
