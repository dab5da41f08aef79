//! ParKur: installs a Debian or Pardus live image into a single loop-mounted
//! disk file on an NTFS volume.
//!
//! This library holds the decisions and the computations of the installer.
//! It never touches the machine: it hands out scripts, paths, plans and bytes,
//! and it reads the replies that the program brings back.
#![allow(unused_imports)]

pub mod ascii;
pub mod boot_ops;
pub mod codec;
pub mod config_ops;
pub mod cpio_ops;
pub mod disk_ops;
pub mod download_ops;
pub mod error;
pub mod i18n;
pub mod image_ops;
pub mod initramfs_ops;
pub mod install;
pub mod iso_ops;
pub mod newc;
pub mod password;
pub mod preseed_ops;
pub mod squashfs_ops;
pub mod text;
pub mod tree;
pub mod util;
pub mod winpath;
pub mod workshop;
