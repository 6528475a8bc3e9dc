//! A persistent evaluation session around the numbat calculator, with a
//! verified rendering pipeline that turns the evaluator's style-tagged
//! markup into flat strings for a control-byte styled chat protocol.

pub mod markup;
pub mod render;
pub mod trim;
pub mod evaluator;
pub mod session;
