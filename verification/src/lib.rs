use vstd::prelude::*;

pub mod ecs;
pub mod gl;
pub mod hexatile;
pub mod math;
pub mod mesh;
pub mod pointer;
pub mod time;
