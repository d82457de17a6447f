//! Verified core of a scene-graph ray tracer: the node hierarchy, nearest-hit
//! selection, shadow-sample visibility, pixel enumeration and the background
//! sky with its star field, all over exact integer values.

pub mod background;
pub mod image;
pub mod nearest;
pub mod shading;
pub mod scene;
