//! hxdown: downloads galleries from E-Hentai and NHentai. This library holds
//! the logic of a download — reading pages, naming files, deciding what to
//! fetch next — for a caller that performs the network and file operations.
pub mod crawler;
pub mod err;
pub mod fs;
pub mod html;
pub mod text;
