//! Integer and combinatorial core of a CPU triangle rasterizer: mesh index
//! topology, clipping of triangles against a plane, 2D buffers, the byte
//! encodings of finished frames, and the readers of the text formats that
//! meshes, materials and textures come in (OBJ faces, MTL fields, plain PPM).
pub mod clip;
pub mod encode;
pub mod grid;
pub mod mtl;
pub mod obj;
pub mod ppm;
pub mod search;
pub mod shading;
pub mod topology;
