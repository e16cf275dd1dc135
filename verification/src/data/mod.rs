//! Data files: where the numbers of each line stand, and how many columns the lines have.
pub mod text_file;
