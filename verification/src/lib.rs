//! File browsing, file management, attachment upload and SSH tunnel
//! bookkeeping for a remote agent, with the decisions verified.

pub mod encoding;
pub mod text;
pub mod paths;
pub mod fsproto;
pub mod disk;
pub mod hashing;
pub mod files;
pub mod file_manage;
pub mod uploads;
pub mod upload_begin;
pub mod upload_finish;
pub mod upload_laws;
pub mod cache_sweep;
pub mod browse;
pub mod ssh_files;
pub mod tunnels;
