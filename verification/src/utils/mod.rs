pub mod cleaner;
