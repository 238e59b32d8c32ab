pub mod camera;
pub mod color;
pub mod fixed;
pub mod hittable;
pub mod hittable_list;
pub mod interval;
pub mod material;
pub mod obj;
pub mod objloader;
pub mod ray;
pub mod rng;
pub mod sphere;
pub mod triangle;
pub mod trig;
pub mod vec3;
