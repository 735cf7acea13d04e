//! Data generation for an HTTP diagnostic service: base64 transcoding in nine
//! dialects and UUID generation for versions 1, 3, 4, 5, 6, 7 and 8.

pub mod data;
