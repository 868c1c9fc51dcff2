//! Arcader Imager: writes an operating system image to a removable drive.
//!
//! The library holds every decision of the imager; the program around it
//! runs the disk tools, opens files and devices, downloads and shows the
//! window.
//!
//! - [`drives`]: the removable drives, from what each platform's disk tool
//!   prints.
//! - [`elevate`]: the privileged writer's command line, how each platform
//!   starts it with administrator rights, and what its exit status means.
//! - [`worker`]: the writer reading its command line and choosing how it
//!   ends.
//! - [`flash`]: one run of writing an image to a device and verifying it.
//! - [`sector`]: writing in whole sectors.
//! - [`digest`]: the SHA-256 digest of the image.
//! - [`session`]: the imager's side of a flash.
//! - [`release`]: the operating system images on offer.
//! - [`text`], [`json`], [`platform`]: shared pieces.
//! - [`laws`]: properties that tie several parts together.
pub mod digest;
pub mod drives;
pub mod elevate;
pub mod flash;
pub mod json;
pub mod laws;
pub mod platform;
pub mod release;
pub mod sector;
pub mod session;
pub mod text;
pub mod worker;
