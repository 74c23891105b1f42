//! Injects a derived CSS class name onto every markup element of a parsed
//! JSX-style tree: the class is the hyphenated file stem joined with the
//! hyphenated element name, merged with any class already present.

pub mod add_classname;
pub mod chars;
pub mod hyphen;
pub mod laws;
pub mod rewrite;
pub mod tree;
pub mod visit;

pub use add_classname::AddClassnameVisitor;
