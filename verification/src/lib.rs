//! Decoder for compiled Java class files and a printer of their
//! declaration summaries.
//!
//! The decoder turns the bytes of a class file into a [`class_file::ClassFile`];
//! every function that reads bytes is specified against a mathematical
//! description of the format, and every function that renders text against
//! a description of the text.
pub mod class_file;
