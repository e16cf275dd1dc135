use vstd::prelude::*;

pub mod text;
pub mod expr;
pub mod data;
pub mod source;
pub mod cmdline;
pub mod widgets;
pub mod window;

verus! {
}
