//! Verified core of a small image-browsing tool: it lists the pictures of a
//! directory, pages through them in groups, lays out thumbnails, tracks which
//! pictures the user picked, and plans the rotation of the picked pictures.
//!
//! Everything that touches the file system or the screen lives outside this
//! crate; the functions here take what was read as plain values and give back
//! what should be shown or done.
pub mod text;
pub mod number;
pub mod dirlist;
pub mod nextgroup;
pub mod imaging;
pub mod gallery;
pub mod rotate;
pub mod state;
pub mod chooser;
