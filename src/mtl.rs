//! Reading the fields of a Wavefront MTL material: each field is the text
//! after its keyword, left for the caller to read as numbers.
use vstd::prelude::*;
use vstd::string::StringSliceAdditionalSpecFns;
use crate::search::{find_group, first_group};

verus! {

/// The material's name.
pub const MTL_NAME: &'static str = "newmtl (?<result>[a-zA-Z0-9_-]+)\n";

/// The ambient color: three decimals.
pub const MTL_AMBIENT: &'static str = "Ka (?<result>[0-9]+.[0-9]+ [0-9]+.[0-9]+ [0-9]+.[0-9]+)\n";

/// The diffuse color: three decimals.
pub const MTL_DIFFUSE: &'static str = "Kd (?<result>[0-9]+.[0-9]+ [0-9]+.[0-9]+ [0-9]+.[0-9]+)\n";

/// The specular color: three decimals.
pub const MTL_SPECULAR: &'static str = "Ks (?<result>[0-9]+.[0-9]+ [0-9]+.[0-9]+ [0-9]+.[0-9]+)\n";

/// The specular exponent.
pub const MTL_HIGHLIGHTS: &'static str = "Ns (?<result>[0-9]+.?[0-9]*)\n";

/// The opacity.
pub const MTL_OPACITY: &'static str = "d (?<result>[0-9]+.?[0-9]*)\n";

/// The diffuse texture: the name of a PPM image, without its extension.
pub const MTL_TEXTURE: &'static str = "map_Kd (?<result>[a-zA-Z0-9_-]+).ppm";

/// The fields found in a material file; a field that is absent is `None`.
pub struct MtlFields {
    pub name: Option<String>,
    pub ambient: Option<String>,
    pub diffuse: Option<String>,
    pub specular: Option<String>,
    pub highlights: Option<String>,
    pub opacity: Option<String>,
    pub texture: Option<String>,
}

/// `r` holds what the first match of `pattern` in the text with UTF-8 bytes
/// `text` captures, and is absent where nothing matches.
pub open spec fn field_is(r: Option<String>, pattern: Seq<char>, text: Seq<u8>) -> bool {
    &&& r.is_some() == first_group(pattern, text).is_some()
    &&& r.is_some() ==> r.unwrap()@ == first_group(pattern, text).unwrap()
}

/// Finds each field of a material in its text.
pub fn material_fields(text: &str) -> (r: MtlFields)
    ensures
        field_is(r.name, MTL_NAME@, text.spec_bytes()),
        field_is(r.ambient, MTL_AMBIENT@, text.spec_bytes()),
        field_is(r.diffuse, MTL_DIFFUSE@, text.spec_bytes()),
        field_is(r.specular, MTL_SPECULAR@, text.spec_bytes()),
        field_is(r.highlights, MTL_HIGHLIGHTS@, text.spec_bytes()),
        field_is(r.opacity, MTL_OPACITY@, text.spec_bytes()),
        field_is(r.texture, MTL_TEXTURE@, text.spec_bytes()),
{
    MtlFields {
        name: find_group(MTL_NAME, text),
        ambient: find_group(MTL_AMBIENT, text),
        diffuse: find_group(MTL_DIFFUSE, text),
        specular: find_group(MTL_SPECULAR, text),
        highlights: find_group(MTL_HIGHLIGHTS, text),
        opacity: find_group(MTL_OPACITY, text),
        texture: find_group(MTL_TEXTURE, text),
    }
}

} // verus!
