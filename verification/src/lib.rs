//! The decisions of a downloader that fetches the audio of a video and
//! splits it into one file per chapter.
//!
//! The downloader and the media tool are other programs. This library
//! reads what they write and decides what follows from it: which lines
//! report progress and what they say ([`progress`]), what to show for each
//! line ([`tailer`]) and which lines to keep for later ([`recent`]), and how a
//! run of a child process goes from start to result ([`runner`]). It also
//! names the files ([`naming`], [`plan`]), reads the metadata ([`metadata`]),
//! sorts the addresses of a batch ([`batch`]) and plans the installation of
//! what is missing ([`install`]).
//!
//! Every function says in its contract what it returns, over the texts as
//! sequences of characters; [`reading_laws`] holds what follows for every
//! progress line.

pub mod batch;
pub mod format;
pub mod install;
pub mod metadata;
pub mod naming;
pub mod plan;
pub mod progress;
pub mod reading_laws;
pub mod recent;
pub mod runner;
pub mod tailer;
pub mod text;
pub mod tokens;
