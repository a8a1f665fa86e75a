//! The line-oriented shader description format: GLSL types, `#hell`
//! instructions, uniform declarations and the parser that gathers them.

use vstd::prelude::*;
use crate::error::{HellError, HellErrorKind, HellResult};
use crate::text::{
    chars_eq, split_once, split_once_seq, starts_with, starts_with_seq, str_chars, trim,
    trim_end_char, trim_end_char_seq, trim_seq, trim_start, trim_start_seq, copy_range,
    append_chars, decimal_seq, usize_to_decimal, lines, lines_seq, chars_to_string, all_ws, char_ws,
    lemma_trim_padded, lemma_find_char_unique,
};

verus! {

/// A GLSL data type ([opengl-wiki](https://www.khronos.org/opengl/wiki/Data_Type_(GLSL))).
#[derive(Debug, Clone, Copy, PartialEq, Eq, Structural)]
pub enum GlslType {
    // Scalars
    Bool,
    Int,
    UInt,
    Float,
    // Vectors
    BVec2,
    BVec3,
    BVec4,
    IVec2,
    IVec3,
    IVec4,
    UVec2,
    UVec3,
    UVec4,
    Vec2,
    Vec3,
    Vec4,
    DVec2,
    DVec3,
    DVec4,
    // Matrices
    Mat2,
    Mat3,
    Mat4,
    DMat2,
    DMat3,
    DMat4,
    // Opaque types
    Sampler2d,
    Sampler2dArray,
}

/// The GLSL keyword of a type.
pub open spec fn glsl_type_name(t: GlslType) -> Seq<char> {
    match t {
        GlslType::Bool => seq!['b', 'o', 'o', 'l'],
        GlslType::Int => seq!['i', 'n', 't'],
        GlslType::UInt => seq!['u', 'i', 'n', 't'],
        GlslType::Float => seq!['f', 'l', 'o', 'a', 't'],
        GlslType::BVec2 => seq!['b', 'v', 'e', 'c', '2'],
        GlslType::BVec3 => seq!['b', 'v', 'e', 'c', '3'],
        GlslType::BVec4 => seq!['b', 'v', 'e', 'c', '4'],
        GlslType::IVec2 => seq!['i', 'v', 'e', 'c', '2'],
        GlslType::IVec3 => seq!['i', 'v', 'e', 'c', '3'],
        GlslType::IVec4 => seq!['i', 'v', 'e', 'c', '4'],
        GlslType::UVec2 => seq!['u', 'v', 'e', 'c', '2'],
        GlslType::UVec3 => seq!['u', 'v', 'e', 'c', '3'],
        GlslType::UVec4 => seq!['u', 'v', 'e', 'c', '4'],
        GlslType::Vec2 => seq!['v', 'e', 'c', '2'],
        GlslType::Vec3 => seq!['v', 'e', 'c', '3'],
        GlslType::Vec4 => seq!['v', 'e', 'c', '4'],
        GlslType::DVec2 => seq!['d', 'v', 'e', 'c', '2'],
        GlslType::DVec3 => seq!['d', 'v', 'e', 'c', '3'],
        GlslType::DVec4 => seq!['d', 'v', 'e', 'c', '4'],
        GlslType::Mat2 => seq!['m', 'a', 't', '2'],
        GlslType::Mat3 => seq!['m', 'a', 't', '3'],
        GlslType::Mat4 => seq!['m', 'a', 't', '4'],
        GlslType::DMat2 => seq!['d', 'm', 'a', 't', '2'],
        GlslType::DMat3 => seq!['d', 'm', 'a', 't', '3'],
        GlslType::DMat4 => seq!['d', 'm', 'a', 't', '4'],
        GlslType::Sampler2d => seq!['s', 'a', 'm', 'p', 'l', 'e', 'r', '2', 'D'],
        GlslType::Sampler2dArray => seq!['s', 'a', 'm', 'p', 'l', 'e', 'r', '2', 'D', 'A', 'r', 'r', 'a', 'y'],
    }
}

/// The type whose keyword is `s`, if any.
pub open spec fn glsl_type_from_seq(s: Seq<char>) -> Option<GlslType> {
    if s == glsl_type_name(GlslType::Bool) {
        Some(GlslType::Bool)
    } else if s == glsl_type_name(GlslType::Int) {
        Some(GlslType::Int)
    } else if s == glsl_type_name(GlslType::UInt) {
        Some(GlslType::UInt)
    } else if s == glsl_type_name(GlslType::Float) {
        Some(GlslType::Float)
    } else if s == glsl_type_name(GlslType::BVec2) {
        Some(GlslType::BVec2)
    } else if s == glsl_type_name(GlslType::BVec3) {
        Some(GlslType::BVec3)
    } else if s == glsl_type_name(GlslType::BVec4) {
        Some(GlslType::BVec4)
    } else if s == glsl_type_name(GlslType::IVec2) {
        Some(GlslType::IVec2)
    } else if s == glsl_type_name(GlslType::IVec3) {
        Some(GlslType::IVec3)
    } else if s == glsl_type_name(GlslType::IVec4) {
        Some(GlslType::IVec4)
    } else if s == glsl_type_name(GlslType::UVec2) {
        Some(GlslType::UVec2)
    } else if s == glsl_type_name(GlslType::UVec3) {
        Some(GlslType::UVec3)
    } else if s == glsl_type_name(GlslType::UVec4) {
        Some(GlslType::UVec4)
    } else if s == glsl_type_name(GlslType::Vec2) {
        Some(GlslType::Vec2)
    } else if s == glsl_type_name(GlslType::Vec3) {
        Some(GlslType::Vec3)
    } else if s == glsl_type_name(GlslType::Vec4) {
        Some(GlslType::Vec4)
    } else if s == glsl_type_name(GlslType::DVec2) {
        Some(GlslType::DVec2)
    } else if s == glsl_type_name(GlslType::DVec3) {
        Some(GlslType::DVec3)
    } else if s == glsl_type_name(GlslType::DVec4) {
        Some(GlslType::DVec4)
    } else if s == glsl_type_name(GlslType::Mat2) {
        Some(GlslType::Mat2)
    } else if s == glsl_type_name(GlslType::Mat3) {
        Some(GlslType::Mat3)
    } else if s == glsl_type_name(GlslType::Mat4) {
        Some(GlslType::Mat4)
    } else if s == glsl_type_name(GlslType::DMat2) {
        Some(GlslType::DMat2)
    } else if s == glsl_type_name(GlslType::DMat3) {
        Some(GlslType::DMat3)
    } else if s == glsl_type_name(GlslType::DMat4) {
        Some(GlslType::DMat4)
    } else if s == glsl_type_name(GlslType::Sampler2d) {
        Some(GlslType::Sampler2d)
    } else if s == glsl_type_name(GlslType::Sampler2dArray) {
        Some(GlslType::Sampler2dArray)
    } else {
        None
    }
}

impl GlslType {
    pub const BOOL_PAT: &'static str = "bool";
    pub const INT_PAT: &'static str = "int";
    pub const UINT_PAT: &'static str = "uint";
    pub const FLOAT_PAT: &'static str = "float";
    pub const BVEC2_PAT: &'static str = "bvec2";
    pub const BVEC3_PAT: &'static str = "bvec3";
    pub const BVEC4_PAT: &'static str = "bvec4";
    pub const IVEC2_PAT: &'static str = "ivec2";
    pub const IVEC3_PAT: &'static str = "ivec3";
    pub const IVEC4_PAT: &'static str = "ivec4";
    pub const UVEC2_PAT: &'static str = "uvec2";
    pub const UVEC3_PAT: &'static str = "uvec3";
    pub const UVEC4_PAT: &'static str = "uvec4";
    pub const VEC2_PAT: &'static str = "vec2";
    pub const VEC3_PAT: &'static str = "vec3";
    pub const VEC4_PAT: &'static str = "vec4";
    pub const DVEC2_PAT: &'static str = "dvec2";
    pub const DVEC3_PAT: &'static str = "dvec3";
    pub const DVEC4_PAT: &'static str = "dvec4";
    pub const MAT2_PAT: &'static str = "mat2";
    pub const MAT3_PAT: &'static str = "mat3";
    pub const MAT4_PAT: &'static str = "mat4";
    pub const DMAT2_PAT: &'static str = "dmat2";
    pub const DMAT3_PAT: &'static str = "dmat3";
    pub const DMAT4_PAT: &'static str = "dmat4";
    pub const SAMPLER_2D_PAT: &'static str = "sampler2D";
    pub const SAMPLER_2D_ARRAY_PAT: &'static str = "sampler2DArray";
}

/// Every GLSL type, in declaration order.
pub open spec fn all_glsl_types() -> Seq<GlslType> {
    seq![GlslType::Bool, GlslType::Int, GlslType::UInt, GlslType::Float, GlslType::BVec2, GlslType::BVec3, GlslType::BVec4, GlslType::IVec2, GlslType::IVec3, GlslType::IVec4, GlslType::UVec2, GlslType::UVec3, GlslType::UVec4, GlslType::Vec2, GlslType::Vec3, GlslType::Vec4, GlslType::DVec2, GlslType::DVec3, GlslType::DVec4, GlslType::Mat2, GlslType::Mat3, GlslType::Mat4, GlslType::DMat2, GlslType::DMat3, GlslType::DMat4, GlslType::Sampler2d, GlslType::Sampler2dArray]
}

impl GlslType {
    pub fn is_sampler(&self) -> (r: bool)
        ensures
            r == (*self == GlslType::Sampler2d || *self == GlslType::Sampler2dArray),
    {
        match self {
            GlslType::Sampler2d | GlslType::Sampler2dArray => true,
            _ => false,
        }
    }

    /// The GLSL keyword of this type.
    pub fn to_str(&self) -> (r: &'static str)
        ensures
            r@ == glsl_type_name(*self),
    {
        match self {
            GlslType::Bool => {
                proof {
                    reveal_strlit("bool");
                }
                "bool"
            },
            GlslType::Int => {
                proof {
                    reveal_strlit("int");
                }
                "int"
            },
            GlslType::UInt => {
                proof {
                    reveal_strlit("uint");
                }
                "uint"
            },
            GlslType::Float => {
                proof {
                    reveal_strlit("float");
                }
                "float"
            },
            GlslType::BVec2 => {
                proof {
                    reveal_strlit("bvec2");
                }
                "bvec2"
            },
            GlslType::BVec3 => {
                proof {
                    reveal_strlit("bvec3");
                }
                "bvec3"
            },
            GlslType::BVec4 => {
                proof {
                    reveal_strlit("bvec4");
                }
                "bvec4"
            },
            GlslType::IVec2 => {
                proof {
                    reveal_strlit("ivec2");
                }
                "ivec2"
            },
            GlslType::IVec3 => {
                proof {
                    reveal_strlit("ivec3");
                }
                "ivec3"
            },
            GlslType::IVec4 => {
                proof {
                    reveal_strlit("ivec4");
                }
                "ivec4"
            },
            GlslType::UVec2 => {
                proof {
                    reveal_strlit("uvec2");
                }
                "uvec2"
            },
            GlslType::UVec3 => {
                proof {
                    reveal_strlit("uvec3");
                }
                "uvec3"
            },
            GlslType::UVec4 => {
                proof {
                    reveal_strlit("uvec4");
                }
                "uvec4"
            },
            GlslType::Vec2 => {
                proof {
                    reveal_strlit("vec2");
                }
                "vec2"
            },
            GlslType::Vec3 => {
                proof {
                    reveal_strlit("vec3");
                }
                "vec3"
            },
            GlslType::Vec4 => {
                proof {
                    reveal_strlit("vec4");
                }
                "vec4"
            },
            GlslType::DVec2 => {
                proof {
                    reveal_strlit("dvec2");
                }
                "dvec2"
            },
            GlslType::DVec3 => {
                proof {
                    reveal_strlit("dvec3");
                }
                "dvec3"
            },
            GlslType::DVec4 => {
                proof {
                    reveal_strlit("dvec4");
                }
                "dvec4"
            },
            GlslType::Mat2 => {
                proof {
                    reveal_strlit("mat2");
                }
                "mat2"
            },
            GlslType::Mat3 => {
                proof {
                    reveal_strlit("mat3");
                }
                "mat3"
            },
            GlslType::Mat4 => {
                proof {
                    reveal_strlit("mat4");
                }
                "mat4"
            },
            GlslType::DMat2 => {
                proof {
                    reveal_strlit("dmat2");
                }
                "dmat2"
            },
            GlslType::DMat3 => {
                proof {
                    reveal_strlit("dmat3");
                }
                "dmat3"
            },
            GlslType::DMat4 => {
                proof {
                    reveal_strlit("dmat4");
                }
                "dmat4"
            },
            GlslType::Sampler2d => {
                proof {
                    reveal_strlit("sampler2D");
                }
                "sampler2D"
            },
            GlslType::Sampler2dArray => {
                proof {
                    reveal_strlit("sampler2DArray");
                }
                "sampler2DArray"
            },
        }
    }

    /// The type at `idx` in declaration order.
    fn at_index(idx: usize) -> (t: GlslType)
        requires
            idx < all_glsl_types().len(),
        ensures
            t == all_glsl_types()[idx as int],
    {
        match idx {
            0 => GlslType::Bool,
            1 => GlslType::Int,
            2 => GlslType::UInt,
            3 => GlslType::Float,
            4 => GlslType::BVec2,
            5 => GlslType::BVec3,
            6 => GlslType::BVec4,
            7 => GlslType::IVec2,
            8 => GlslType::IVec3,
            9 => GlslType::IVec4,
            10 => GlslType::UVec2,
            11 => GlslType::UVec3,
            12 => GlslType::UVec4,
            13 => GlslType::Vec2,
            14 => GlslType::Vec3,
            15 => GlslType::Vec4,
            16 => GlslType::DVec2,
            17 => GlslType::DVec3,
            18 => GlslType::DVec4,
            19 => GlslType::Mat2,
            20 => GlslType::Mat3,
            21 => GlslType::Mat4,
            22 => GlslType::DMat2,
            23 => GlslType::DMat3,
            24 => GlslType::DMat4,
            25 => GlslType::Sampler2d,
            _ => GlslType::Sampler2dArray,
        }
    }
}


/// Keyword lookup is the inverse of `glsl_type_name`.
pub proof fn lemma_glsl_type_name_parses(t: GlslType)
    ensures
        glsl_type_from_seq(glsl_type_name(t)) == Some(t),
{
    match t {
        GlslType::Bool => {

        },
        GlslType::Int => {
            assert(glsl_type_name(GlslType::Int).len() != glsl_type_name(GlslType::Bool).len());
        },
        GlslType::UInt => {
            assert(glsl_type_name(GlslType::UInt)[0] != glsl_type_name(GlslType::Bool)[0]);
            assert(glsl_type_name(GlslType::UInt).len() != glsl_type_name(GlslType::Int).len());
        },
        GlslType::Float => {
            assert(glsl_type_name(GlslType::Float).len() != glsl_type_name(GlslType::Bool).len());
            assert(glsl_type_name(GlslType::Float).len() != glsl_type_name(GlslType::Int).len());
            assert(glsl_type_name(GlslType::Float).len() != glsl_type_name(GlslType::UInt).len());
        },
        GlslType::BVec2 => {
            assert(glsl_type_name(GlslType::BVec2).len() != glsl_type_name(GlslType::Bool).len());
            assert(glsl_type_name(GlslType::BVec2).len() != glsl_type_name(GlslType::Int).len());
            assert(glsl_type_name(GlslType::BVec2).len() != glsl_type_name(GlslType::UInt).len());
            assert(glsl_type_name(GlslType::BVec2)[0] != glsl_type_name(GlslType::Float)[0]);
        },
        GlslType::BVec3 => {
            assert(glsl_type_name(GlslType::BVec3).len() != glsl_type_name(GlslType::Bool).len());
            assert(glsl_type_name(GlslType::BVec3).len() != glsl_type_name(GlslType::Int).len());
            assert(glsl_type_name(GlslType::BVec3).len() != glsl_type_name(GlslType::UInt).len());
            assert(glsl_type_name(GlslType::BVec3)[0] != glsl_type_name(GlslType::Float)[0]);
            assert(glsl_type_name(GlslType::BVec3)[4] != glsl_type_name(GlslType::BVec2)[4]);
        },
        GlslType::BVec4 => {
            assert(glsl_type_name(GlslType::BVec4).len() != glsl_type_name(GlslType::Bool).len());
            assert(glsl_type_name(GlslType::BVec4).len() != glsl_type_name(GlslType::Int).len());
            assert(glsl_type_name(GlslType::BVec4).len() != glsl_type_name(GlslType::UInt).len());
            assert(glsl_type_name(GlslType::BVec4)[0] != glsl_type_name(GlslType::Float)[0]);
            assert(glsl_type_name(GlslType::BVec4)[4] != glsl_type_name(GlslType::BVec2)[4]);
            assert(glsl_type_name(GlslType::BVec4)[4] != glsl_type_name(GlslType::BVec3)[4]);
        },
        GlslType::IVec2 => {
            assert(glsl_type_name(GlslType::IVec2).len() != glsl_type_name(GlslType::Bool).len());
            assert(glsl_type_name(GlslType::IVec2).len() != glsl_type_name(GlslType::Int).len());
            assert(glsl_type_name(GlslType::IVec2).len() != glsl_type_name(GlslType::UInt).len());
            assert(glsl_type_name(GlslType::IVec2)[0] != glsl_type_name(GlslType::Float)[0]);
            assert(glsl_type_name(GlslType::IVec2)[0] != glsl_type_name(GlslType::BVec2)[0]);
            assert(glsl_type_name(GlslType::IVec2)[0] != glsl_type_name(GlslType::BVec3)[0]);
            assert(glsl_type_name(GlslType::IVec2)[0] != glsl_type_name(GlslType::BVec4)[0]);
        },
        GlslType::IVec3 => {
            assert(glsl_type_name(GlslType::IVec3).len() != glsl_type_name(GlslType::Bool).len());
            assert(glsl_type_name(GlslType::IVec3).len() != glsl_type_name(GlslType::Int).len());
            assert(glsl_type_name(GlslType::IVec3).len() != glsl_type_name(GlslType::UInt).len());
            assert(glsl_type_name(GlslType::IVec3)[0] != glsl_type_name(GlslType::Float)[0]);
            assert(glsl_type_name(GlslType::IVec3)[0] != glsl_type_name(GlslType::BVec2)[0]);
            assert(glsl_type_name(GlslType::IVec3)[0] != glsl_type_name(GlslType::BVec3)[0]);
            assert(glsl_type_name(GlslType::IVec3)[0] != glsl_type_name(GlslType::BVec4)[0]);
            assert(glsl_type_name(GlslType::IVec3)[4] != glsl_type_name(GlslType::IVec2)[4]);
        },
        GlslType::IVec4 => {
            assert(glsl_type_name(GlslType::IVec4).len() != glsl_type_name(GlslType::Bool).len());
            assert(glsl_type_name(GlslType::IVec4).len() != glsl_type_name(GlslType::Int).len());
            assert(glsl_type_name(GlslType::IVec4).len() != glsl_type_name(GlslType::UInt).len());
            assert(glsl_type_name(GlslType::IVec4)[0] != glsl_type_name(GlslType::Float)[0]);
            assert(glsl_type_name(GlslType::IVec4)[0] != glsl_type_name(GlslType::BVec2)[0]);
            assert(glsl_type_name(GlslType::IVec4)[0] != glsl_type_name(GlslType::BVec3)[0]);
            assert(glsl_type_name(GlslType::IVec4)[0] != glsl_type_name(GlslType::BVec4)[0]);
            assert(glsl_type_name(GlslType::IVec4)[4] != glsl_type_name(GlslType::IVec2)[4]);
            assert(glsl_type_name(GlslType::IVec4)[4] != glsl_type_name(GlslType::IVec3)[4]);
        },
        GlslType::UVec2 => {
            assert(glsl_type_name(GlslType::UVec2).len() != glsl_type_name(GlslType::Bool).len());
            assert(glsl_type_name(GlslType::UVec2).len() != glsl_type_name(GlslType::Int).len());
            assert(glsl_type_name(GlslType::UVec2).len() != glsl_type_name(GlslType::UInt).len());
            assert(glsl_type_name(GlslType::UVec2)[0] != glsl_type_name(GlslType::Float)[0]);
            assert(glsl_type_name(GlslType::UVec2)[0] != glsl_type_name(GlslType::BVec2)[0]);
            assert(glsl_type_name(GlslType::UVec2)[0] != glsl_type_name(GlslType::BVec3)[0]);
            assert(glsl_type_name(GlslType::UVec2)[0] != glsl_type_name(GlslType::BVec4)[0]);
            assert(glsl_type_name(GlslType::UVec2)[0] != glsl_type_name(GlslType::IVec2)[0]);
            assert(glsl_type_name(GlslType::UVec2)[0] != glsl_type_name(GlslType::IVec3)[0]);
            assert(glsl_type_name(GlslType::UVec2)[0] != glsl_type_name(GlslType::IVec4)[0]);
        },
        GlslType::UVec3 => {
            assert(glsl_type_name(GlslType::UVec3).len() != glsl_type_name(GlslType::Bool).len());
            assert(glsl_type_name(GlslType::UVec3).len() != glsl_type_name(GlslType::Int).len());
            assert(glsl_type_name(GlslType::UVec3).len() != glsl_type_name(GlslType::UInt).len());
            assert(glsl_type_name(GlslType::UVec3)[0] != glsl_type_name(GlslType::Float)[0]);
            assert(glsl_type_name(GlslType::UVec3)[0] != glsl_type_name(GlslType::BVec2)[0]);
            assert(glsl_type_name(GlslType::UVec3)[0] != glsl_type_name(GlslType::BVec3)[0]);
            assert(glsl_type_name(GlslType::UVec3)[0] != glsl_type_name(GlslType::BVec4)[0]);
            assert(glsl_type_name(GlslType::UVec3)[0] != glsl_type_name(GlslType::IVec2)[0]);
            assert(glsl_type_name(GlslType::UVec3)[0] != glsl_type_name(GlslType::IVec3)[0]);
            assert(glsl_type_name(GlslType::UVec3)[0] != glsl_type_name(GlslType::IVec4)[0]);
            assert(glsl_type_name(GlslType::UVec3)[4] != glsl_type_name(GlslType::UVec2)[4]);
        },
        GlslType::UVec4 => {
            assert(glsl_type_name(GlslType::UVec4).len() != glsl_type_name(GlslType::Bool).len());
            assert(glsl_type_name(GlslType::UVec4).len() != glsl_type_name(GlslType::Int).len());
            assert(glsl_type_name(GlslType::UVec4).len() != glsl_type_name(GlslType::UInt).len());
            assert(glsl_type_name(GlslType::UVec4)[0] != glsl_type_name(GlslType::Float)[0]);
            assert(glsl_type_name(GlslType::UVec4)[0] != glsl_type_name(GlslType::BVec2)[0]);
            assert(glsl_type_name(GlslType::UVec4)[0] != glsl_type_name(GlslType::BVec3)[0]);
            assert(glsl_type_name(GlslType::UVec4)[0] != glsl_type_name(GlslType::BVec4)[0]);
            assert(glsl_type_name(GlslType::UVec4)[0] != glsl_type_name(GlslType::IVec2)[0]);
            assert(glsl_type_name(GlslType::UVec4)[0] != glsl_type_name(GlslType::IVec3)[0]);
            assert(glsl_type_name(GlslType::UVec4)[0] != glsl_type_name(GlslType::IVec4)[0]);
            assert(glsl_type_name(GlslType::UVec4)[4] != glsl_type_name(GlslType::UVec2)[4]);
            assert(glsl_type_name(GlslType::UVec4)[4] != glsl_type_name(GlslType::UVec3)[4]);
        },
        GlslType::Vec2 => {
            assert(glsl_type_name(GlslType::Vec2)[0] != glsl_type_name(GlslType::Bool)[0]);
            assert(glsl_type_name(GlslType::Vec2).len() != glsl_type_name(GlslType::Int).len());
            assert(glsl_type_name(GlslType::Vec2)[0] != glsl_type_name(GlslType::UInt)[0]);
            assert(glsl_type_name(GlslType::Vec2).len() != glsl_type_name(GlslType::Float).len());
            assert(glsl_type_name(GlslType::Vec2).len() != glsl_type_name(GlslType::BVec2).len());
            assert(glsl_type_name(GlslType::Vec2).len() != glsl_type_name(GlslType::BVec3).len());
            assert(glsl_type_name(GlslType::Vec2).len() != glsl_type_name(GlslType::BVec4).len());
            assert(glsl_type_name(GlslType::Vec2).len() != glsl_type_name(GlslType::IVec2).len());
            assert(glsl_type_name(GlslType::Vec2).len() != glsl_type_name(GlslType::IVec3).len());
            assert(glsl_type_name(GlslType::Vec2).len() != glsl_type_name(GlslType::IVec4).len());
            assert(glsl_type_name(GlslType::Vec2).len() != glsl_type_name(GlslType::UVec2).len());
            assert(glsl_type_name(GlslType::Vec2).len() != glsl_type_name(GlslType::UVec3).len());
            assert(glsl_type_name(GlslType::Vec2).len() != glsl_type_name(GlslType::UVec4).len());
        },
        GlslType::Vec3 => {
            assert(glsl_type_name(GlslType::Vec3)[0] != glsl_type_name(GlslType::Bool)[0]);
            assert(glsl_type_name(GlslType::Vec3).len() != glsl_type_name(GlslType::Int).len());
            assert(glsl_type_name(GlslType::Vec3)[0] != glsl_type_name(GlslType::UInt)[0]);
            assert(glsl_type_name(GlslType::Vec3).len() != glsl_type_name(GlslType::Float).len());
            assert(glsl_type_name(GlslType::Vec3).len() != glsl_type_name(GlslType::BVec2).len());
            assert(glsl_type_name(GlslType::Vec3).len() != glsl_type_name(GlslType::BVec3).len());
            assert(glsl_type_name(GlslType::Vec3).len() != glsl_type_name(GlslType::BVec4).len());
            assert(glsl_type_name(GlslType::Vec3).len() != glsl_type_name(GlslType::IVec2).len());
            assert(glsl_type_name(GlslType::Vec3).len() != glsl_type_name(GlslType::IVec3).len());
            assert(glsl_type_name(GlslType::Vec3).len() != glsl_type_name(GlslType::IVec4).len());
            assert(glsl_type_name(GlslType::Vec3).len() != glsl_type_name(GlslType::UVec2).len());
            assert(glsl_type_name(GlslType::Vec3).len() != glsl_type_name(GlslType::UVec3).len());
            assert(glsl_type_name(GlslType::Vec3).len() != glsl_type_name(GlslType::UVec4).len());
            assert(glsl_type_name(GlslType::Vec3)[3] != glsl_type_name(GlslType::Vec2)[3]);
        },
        GlslType::Vec4 => {
            assert(glsl_type_name(GlslType::Vec4)[0] != glsl_type_name(GlslType::Bool)[0]);
            assert(glsl_type_name(GlslType::Vec4).len() != glsl_type_name(GlslType::Int).len());
            assert(glsl_type_name(GlslType::Vec4)[0] != glsl_type_name(GlslType::UInt)[0]);
            assert(glsl_type_name(GlslType::Vec4).len() != glsl_type_name(GlslType::Float).len());
            assert(glsl_type_name(GlslType::Vec4).len() != glsl_type_name(GlslType::BVec2).len());
            assert(glsl_type_name(GlslType::Vec4).len() != glsl_type_name(GlslType::BVec3).len());
            assert(glsl_type_name(GlslType::Vec4).len() != glsl_type_name(GlslType::BVec4).len());
            assert(glsl_type_name(GlslType::Vec4).len() != glsl_type_name(GlslType::IVec2).len());
            assert(glsl_type_name(GlslType::Vec4).len() != glsl_type_name(GlslType::IVec3).len());
            assert(glsl_type_name(GlslType::Vec4).len() != glsl_type_name(GlslType::IVec4).len());
            assert(glsl_type_name(GlslType::Vec4).len() != glsl_type_name(GlslType::UVec2).len());
            assert(glsl_type_name(GlslType::Vec4).len() != glsl_type_name(GlslType::UVec3).len());
            assert(glsl_type_name(GlslType::Vec4).len() != glsl_type_name(GlslType::UVec4).len());
            assert(glsl_type_name(GlslType::Vec4)[3] != glsl_type_name(GlslType::Vec2)[3]);
            assert(glsl_type_name(GlslType::Vec4)[3] != glsl_type_name(GlslType::Vec3)[3]);
        },
        GlslType::DVec2 => {
            assert(glsl_type_name(GlslType::DVec2).len() != glsl_type_name(GlslType::Bool).len());
            assert(glsl_type_name(GlslType::DVec2).len() != glsl_type_name(GlslType::Int).len());
            assert(glsl_type_name(GlslType::DVec2).len() != glsl_type_name(GlslType::UInt).len());
            assert(glsl_type_name(GlslType::DVec2)[0] != glsl_type_name(GlslType::Float)[0]);
            assert(glsl_type_name(GlslType::DVec2)[0] != glsl_type_name(GlslType::BVec2)[0]);
            assert(glsl_type_name(GlslType::DVec2)[0] != glsl_type_name(GlslType::BVec3)[0]);
            assert(glsl_type_name(GlslType::DVec2)[0] != glsl_type_name(GlslType::BVec4)[0]);
            assert(glsl_type_name(GlslType::DVec2)[0] != glsl_type_name(GlslType::IVec2)[0]);
            assert(glsl_type_name(GlslType::DVec2)[0] != glsl_type_name(GlslType::IVec3)[0]);
            assert(glsl_type_name(GlslType::DVec2)[0] != glsl_type_name(GlslType::IVec4)[0]);
            assert(glsl_type_name(GlslType::DVec2)[0] != glsl_type_name(GlslType::UVec2)[0]);
            assert(glsl_type_name(GlslType::DVec2)[0] != glsl_type_name(GlslType::UVec3)[0]);
            assert(glsl_type_name(GlslType::DVec2)[0] != glsl_type_name(GlslType::UVec4)[0]);
            assert(glsl_type_name(GlslType::DVec2).len() != glsl_type_name(GlslType::Vec2).len());
            assert(glsl_type_name(GlslType::DVec2).len() != glsl_type_name(GlslType::Vec3).len());
            assert(glsl_type_name(GlslType::DVec2).len() != glsl_type_name(GlslType::Vec4).len());
        },
        GlslType::DVec3 => {
            assert(glsl_type_name(GlslType::DVec3).len() != glsl_type_name(GlslType::Bool).len());
            assert(glsl_type_name(GlslType::DVec3).len() != glsl_type_name(GlslType::Int).len());
            assert(glsl_type_name(GlslType::DVec3).len() != glsl_type_name(GlslType::UInt).len());
            assert(glsl_type_name(GlslType::DVec3)[0] != glsl_type_name(GlslType::Float)[0]);
            assert(glsl_type_name(GlslType::DVec3)[0] != glsl_type_name(GlslType::BVec2)[0]);
            assert(glsl_type_name(GlslType::DVec3)[0] != glsl_type_name(GlslType::BVec3)[0]);
            assert(glsl_type_name(GlslType::DVec3)[0] != glsl_type_name(GlslType::BVec4)[0]);
            assert(glsl_type_name(GlslType::DVec3)[0] != glsl_type_name(GlslType::IVec2)[0]);
            assert(glsl_type_name(GlslType::DVec3)[0] != glsl_type_name(GlslType::IVec3)[0]);
            assert(glsl_type_name(GlslType::DVec3)[0] != glsl_type_name(GlslType::IVec4)[0]);
            assert(glsl_type_name(GlslType::DVec3)[0] != glsl_type_name(GlslType::UVec2)[0]);
            assert(glsl_type_name(GlslType::DVec3)[0] != glsl_type_name(GlslType::UVec3)[0]);
            assert(glsl_type_name(GlslType::DVec3)[0] != glsl_type_name(GlslType::UVec4)[0]);
            assert(glsl_type_name(GlslType::DVec3).len() != glsl_type_name(GlslType::Vec2).len());
            assert(glsl_type_name(GlslType::DVec3).len() != glsl_type_name(GlslType::Vec3).len());
            assert(glsl_type_name(GlslType::DVec3).len() != glsl_type_name(GlslType::Vec4).len());
            assert(glsl_type_name(GlslType::DVec3)[4] != glsl_type_name(GlslType::DVec2)[4]);
        },
        GlslType::DVec4 => {
            assert(glsl_type_name(GlslType::DVec4).len() != glsl_type_name(GlslType::Bool).len());
            assert(glsl_type_name(GlslType::DVec4).len() != glsl_type_name(GlslType::Int).len());
            assert(glsl_type_name(GlslType::DVec4).len() != glsl_type_name(GlslType::UInt).len());
            assert(glsl_type_name(GlslType::DVec4)[0] != glsl_type_name(GlslType::Float)[0]);
            assert(glsl_type_name(GlslType::DVec4)[0] != glsl_type_name(GlslType::BVec2)[0]);
            assert(glsl_type_name(GlslType::DVec4)[0] != glsl_type_name(GlslType::BVec3)[0]);
            assert(glsl_type_name(GlslType::DVec4)[0] != glsl_type_name(GlslType::BVec4)[0]);
            assert(glsl_type_name(GlslType::DVec4)[0] != glsl_type_name(GlslType::IVec2)[0]);
            assert(glsl_type_name(GlslType::DVec4)[0] != glsl_type_name(GlslType::IVec3)[0]);
            assert(glsl_type_name(GlslType::DVec4)[0] != glsl_type_name(GlslType::IVec4)[0]);
            assert(glsl_type_name(GlslType::DVec4)[0] != glsl_type_name(GlslType::UVec2)[0]);
            assert(glsl_type_name(GlslType::DVec4)[0] != glsl_type_name(GlslType::UVec3)[0]);
            assert(glsl_type_name(GlslType::DVec4)[0] != glsl_type_name(GlslType::UVec4)[0]);
            assert(glsl_type_name(GlslType::DVec4).len() != glsl_type_name(GlslType::Vec2).len());
            assert(glsl_type_name(GlslType::DVec4).len() != glsl_type_name(GlslType::Vec3).len());
            assert(glsl_type_name(GlslType::DVec4).len() != glsl_type_name(GlslType::Vec4).len());
            assert(glsl_type_name(GlslType::DVec4)[4] != glsl_type_name(GlslType::DVec2)[4]);
            assert(glsl_type_name(GlslType::DVec4)[4] != glsl_type_name(GlslType::DVec3)[4]);
        },
        GlslType::Mat2 => {
            assert(glsl_type_name(GlslType::Mat2)[0] != glsl_type_name(GlslType::Bool)[0]);
            assert(glsl_type_name(GlslType::Mat2).len() != glsl_type_name(GlslType::Int).len());
            assert(glsl_type_name(GlslType::Mat2)[0] != glsl_type_name(GlslType::UInt)[0]);
            assert(glsl_type_name(GlslType::Mat2).len() != glsl_type_name(GlslType::Float).len());
            assert(glsl_type_name(GlslType::Mat2).len() != glsl_type_name(GlslType::BVec2).len());
            assert(glsl_type_name(GlslType::Mat2).len() != glsl_type_name(GlslType::BVec3).len());
            assert(glsl_type_name(GlslType::Mat2).len() != glsl_type_name(GlslType::BVec4).len());
            assert(glsl_type_name(GlslType::Mat2).len() != glsl_type_name(GlslType::IVec2).len());
            assert(glsl_type_name(GlslType::Mat2).len() != glsl_type_name(GlslType::IVec3).len());
            assert(glsl_type_name(GlslType::Mat2).len() != glsl_type_name(GlslType::IVec4).len());
            assert(glsl_type_name(GlslType::Mat2).len() != glsl_type_name(GlslType::UVec2).len());
            assert(glsl_type_name(GlslType::Mat2).len() != glsl_type_name(GlslType::UVec3).len());
            assert(glsl_type_name(GlslType::Mat2).len() != glsl_type_name(GlslType::UVec4).len());
            assert(glsl_type_name(GlslType::Mat2)[0] != glsl_type_name(GlslType::Vec2)[0]);
            assert(glsl_type_name(GlslType::Mat2)[0] != glsl_type_name(GlslType::Vec3)[0]);
            assert(glsl_type_name(GlslType::Mat2)[0] != glsl_type_name(GlslType::Vec4)[0]);
            assert(glsl_type_name(GlslType::Mat2).len() != glsl_type_name(GlslType::DVec2).len());
            assert(glsl_type_name(GlslType::Mat2).len() != glsl_type_name(GlslType::DVec3).len());
            assert(glsl_type_name(GlslType::Mat2).len() != glsl_type_name(GlslType::DVec4).len());
        },
        GlslType::Mat3 => {
            assert(glsl_type_name(GlslType::Mat3)[0] != glsl_type_name(GlslType::Bool)[0]);
            assert(glsl_type_name(GlslType::Mat3).len() != glsl_type_name(GlslType::Int).len());
            assert(glsl_type_name(GlslType::Mat3)[0] != glsl_type_name(GlslType::UInt)[0]);
            assert(glsl_type_name(GlslType::Mat3).len() != glsl_type_name(GlslType::Float).len());
            assert(glsl_type_name(GlslType::Mat3).len() != glsl_type_name(GlslType::BVec2).len());
            assert(glsl_type_name(GlslType::Mat3).len() != glsl_type_name(GlslType::BVec3).len());
            assert(glsl_type_name(GlslType::Mat3).len() != glsl_type_name(GlslType::BVec4).len());
            assert(glsl_type_name(GlslType::Mat3).len() != glsl_type_name(GlslType::IVec2).len());
            assert(glsl_type_name(GlslType::Mat3).len() != glsl_type_name(GlslType::IVec3).len());
            assert(glsl_type_name(GlslType::Mat3).len() != glsl_type_name(GlslType::IVec4).len());
            assert(glsl_type_name(GlslType::Mat3).len() != glsl_type_name(GlslType::UVec2).len());
            assert(glsl_type_name(GlslType::Mat3).len() != glsl_type_name(GlslType::UVec3).len());
            assert(glsl_type_name(GlslType::Mat3).len() != glsl_type_name(GlslType::UVec4).len());
            assert(glsl_type_name(GlslType::Mat3)[0] != glsl_type_name(GlslType::Vec2)[0]);
            assert(glsl_type_name(GlslType::Mat3)[0] != glsl_type_name(GlslType::Vec3)[0]);
            assert(glsl_type_name(GlslType::Mat3)[0] != glsl_type_name(GlslType::Vec4)[0]);
            assert(glsl_type_name(GlslType::Mat3).len() != glsl_type_name(GlslType::DVec2).len());
            assert(glsl_type_name(GlslType::Mat3).len() != glsl_type_name(GlslType::DVec3).len());
            assert(glsl_type_name(GlslType::Mat3).len() != glsl_type_name(GlslType::DVec4).len());
            assert(glsl_type_name(GlslType::Mat3)[3] != glsl_type_name(GlslType::Mat2)[3]);
        },
        GlslType::Mat4 => {
            assert(glsl_type_name(GlslType::Mat4)[0] != glsl_type_name(GlslType::Bool)[0]);
            assert(glsl_type_name(GlslType::Mat4).len() != glsl_type_name(GlslType::Int).len());
            assert(glsl_type_name(GlslType::Mat4)[0] != glsl_type_name(GlslType::UInt)[0]);
            assert(glsl_type_name(GlslType::Mat4).len() != glsl_type_name(GlslType::Float).len());
            assert(glsl_type_name(GlslType::Mat4).len() != glsl_type_name(GlslType::BVec2).len());
            assert(glsl_type_name(GlslType::Mat4).len() != glsl_type_name(GlslType::BVec3).len());
            assert(glsl_type_name(GlslType::Mat4).len() != glsl_type_name(GlslType::BVec4).len());
            assert(glsl_type_name(GlslType::Mat4).len() != glsl_type_name(GlslType::IVec2).len());
            assert(glsl_type_name(GlslType::Mat4).len() != glsl_type_name(GlslType::IVec3).len());
            assert(glsl_type_name(GlslType::Mat4).len() != glsl_type_name(GlslType::IVec4).len());
            assert(glsl_type_name(GlslType::Mat4).len() != glsl_type_name(GlslType::UVec2).len());
            assert(glsl_type_name(GlslType::Mat4).len() != glsl_type_name(GlslType::UVec3).len());
            assert(glsl_type_name(GlslType::Mat4).len() != glsl_type_name(GlslType::UVec4).len());
            assert(glsl_type_name(GlslType::Mat4)[0] != glsl_type_name(GlslType::Vec2)[0]);
            assert(glsl_type_name(GlslType::Mat4)[0] != glsl_type_name(GlslType::Vec3)[0]);
            assert(glsl_type_name(GlslType::Mat4)[0] != glsl_type_name(GlslType::Vec4)[0]);
            assert(glsl_type_name(GlslType::Mat4).len() != glsl_type_name(GlslType::DVec2).len());
            assert(glsl_type_name(GlslType::Mat4).len() != glsl_type_name(GlslType::DVec3).len());
            assert(glsl_type_name(GlslType::Mat4).len() != glsl_type_name(GlslType::DVec4).len());
            assert(glsl_type_name(GlslType::Mat4)[3] != glsl_type_name(GlslType::Mat2)[3]);
            assert(glsl_type_name(GlslType::Mat4)[3] != glsl_type_name(GlslType::Mat3)[3]);
        },
        GlslType::DMat2 => {
            assert(glsl_type_name(GlslType::DMat2).len() != glsl_type_name(GlslType::Bool).len());
            assert(glsl_type_name(GlslType::DMat2).len() != glsl_type_name(GlslType::Int).len());
            assert(glsl_type_name(GlslType::DMat2).len() != glsl_type_name(GlslType::UInt).len());
            assert(glsl_type_name(GlslType::DMat2)[0] != glsl_type_name(GlslType::Float)[0]);
            assert(glsl_type_name(GlslType::DMat2)[0] != glsl_type_name(GlslType::BVec2)[0]);
            assert(glsl_type_name(GlslType::DMat2)[0] != glsl_type_name(GlslType::BVec3)[0]);
            assert(glsl_type_name(GlslType::DMat2)[0] != glsl_type_name(GlslType::BVec4)[0]);
            assert(glsl_type_name(GlslType::DMat2)[0] != glsl_type_name(GlslType::IVec2)[0]);
            assert(glsl_type_name(GlslType::DMat2)[0] != glsl_type_name(GlslType::IVec3)[0]);
            assert(glsl_type_name(GlslType::DMat2)[0] != glsl_type_name(GlslType::IVec4)[0]);
            assert(glsl_type_name(GlslType::DMat2)[0] != glsl_type_name(GlslType::UVec2)[0]);
            assert(glsl_type_name(GlslType::DMat2)[0] != glsl_type_name(GlslType::UVec3)[0]);
            assert(glsl_type_name(GlslType::DMat2)[0] != glsl_type_name(GlslType::UVec4)[0]);
            assert(glsl_type_name(GlslType::DMat2).len() != glsl_type_name(GlslType::Vec2).len());
            assert(glsl_type_name(GlslType::DMat2).len() != glsl_type_name(GlslType::Vec3).len());
            assert(glsl_type_name(GlslType::DMat2).len() != glsl_type_name(GlslType::Vec4).len());
            assert(glsl_type_name(GlslType::DMat2)[1] != glsl_type_name(GlslType::DVec2)[1]);
            assert(glsl_type_name(GlslType::DMat2)[1] != glsl_type_name(GlslType::DVec3)[1]);
            assert(glsl_type_name(GlslType::DMat2)[1] != glsl_type_name(GlslType::DVec4)[1]);
            assert(glsl_type_name(GlslType::DMat2).len() != glsl_type_name(GlslType::Mat2).len());
            assert(glsl_type_name(GlslType::DMat2).len() != glsl_type_name(GlslType::Mat3).len());
            assert(glsl_type_name(GlslType::DMat2).len() != glsl_type_name(GlslType::Mat4).len());
        },
        GlslType::DMat3 => {
            assert(glsl_type_name(GlslType::DMat3).len() != glsl_type_name(GlslType::Bool).len());
            assert(glsl_type_name(GlslType::DMat3).len() != glsl_type_name(GlslType::Int).len());
            assert(glsl_type_name(GlslType::DMat3).len() != glsl_type_name(GlslType::UInt).len());
            assert(glsl_type_name(GlslType::DMat3)[0] != glsl_type_name(GlslType::Float)[0]);
            assert(glsl_type_name(GlslType::DMat3)[0] != glsl_type_name(GlslType::BVec2)[0]);
            assert(glsl_type_name(GlslType::DMat3)[0] != glsl_type_name(GlslType::BVec3)[0]);
            assert(glsl_type_name(GlslType::DMat3)[0] != glsl_type_name(GlslType::BVec4)[0]);
            assert(glsl_type_name(GlslType::DMat3)[0] != glsl_type_name(GlslType::IVec2)[0]);
            assert(glsl_type_name(GlslType::DMat3)[0] != glsl_type_name(GlslType::IVec3)[0]);
            assert(glsl_type_name(GlslType::DMat3)[0] != glsl_type_name(GlslType::IVec4)[0]);
            assert(glsl_type_name(GlslType::DMat3)[0] != glsl_type_name(GlslType::UVec2)[0]);
            assert(glsl_type_name(GlslType::DMat3)[0] != glsl_type_name(GlslType::UVec3)[0]);
            assert(glsl_type_name(GlslType::DMat3)[0] != glsl_type_name(GlslType::UVec4)[0]);
            assert(glsl_type_name(GlslType::DMat3).len() != glsl_type_name(GlslType::Vec2).len());
            assert(glsl_type_name(GlslType::DMat3).len() != glsl_type_name(GlslType::Vec3).len());
            assert(glsl_type_name(GlslType::DMat3).len() != glsl_type_name(GlslType::Vec4).len());
            assert(glsl_type_name(GlslType::DMat3)[1] != glsl_type_name(GlslType::DVec2)[1]);
            assert(glsl_type_name(GlslType::DMat3)[1] != glsl_type_name(GlslType::DVec3)[1]);
            assert(glsl_type_name(GlslType::DMat3)[1] != glsl_type_name(GlslType::DVec4)[1]);
            assert(glsl_type_name(GlslType::DMat3).len() != glsl_type_name(GlslType::Mat2).len());
            assert(glsl_type_name(GlslType::DMat3).len() != glsl_type_name(GlslType::Mat3).len());
            assert(glsl_type_name(GlslType::DMat3).len() != glsl_type_name(GlslType::Mat4).len());
            assert(glsl_type_name(GlslType::DMat3)[4] != glsl_type_name(GlslType::DMat2)[4]);
        },
        GlslType::DMat4 => {
            assert(glsl_type_name(GlslType::DMat4).len() != glsl_type_name(GlslType::Bool).len());
            assert(glsl_type_name(GlslType::DMat4).len() != glsl_type_name(GlslType::Int).len());
            assert(glsl_type_name(GlslType::DMat4).len() != glsl_type_name(GlslType::UInt).len());
            assert(glsl_type_name(GlslType::DMat4)[0] != glsl_type_name(GlslType::Float)[0]);
            assert(glsl_type_name(GlslType::DMat4)[0] != glsl_type_name(GlslType::BVec2)[0]);
            assert(glsl_type_name(GlslType::DMat4)[0] != glsl_type_name(GlslType::BVec3)[0]);
            assert(glsl_type_name(GlslType::DMat4)[0] != glsl_type_name(GlslType::BVec4)[0]);
            assert(glsl_type_name(GlslType::DMat4)[0] != glsl_type_name(GlslType::IVec2)[0]);
            assert(glsl_type_name(GlslType::DMat4)[0] != glsl_type_name(GlslType::IVec3)[0]);
            assert(glsl_type_name(GlslType::DMat4)[0] != glsl_type_name(GlslType::IVec4)[0]);
            assert(glsl_type_name(GlslType::DMat4)[0] != glsl_type_name(GlslType::UVec2)[0]);
            assert(glsl_type_name(GlslType::DMat4)[0] != glsl_type_name(GlslType::UVec3)[0]);
            assert(glsl_type_name(GlslType::DMat4)[0] != glsl_type_name(GlslType::UVec4)[0]);
            assert(glsl_type_name(GlslType::DMat4).len() != glsl_type_name(GlslType::Vec2).len());
            assert(glsl_type_name(GlslType::DMat4).len() != glsl_type_name(GlslType::Vec3).len());
            assert(glsl_type_name(GlslType::DMat4).len() != glsl_type_name(GlslType::Vec4).len());
            assert(glsl_type_name(GlslType::DMat4)[1] != glsl_type_name(GlslType::DVec2)[1]);
            assert(glsl_type_name(GlslType::DMat4)[1] != glsl_type_name(GlslType::DVec3)[1]);
            assert(glsl_type_name(GlslType::DMat4)[1] != glsl_type_name(GlslType::DVec4)[1]);
            assert(glsl_type_name(GlslType::DMat4).len() != glsl_type_name(GlslType::Mat2).len());
            assert(glsl_type_name(GlslType::DMat4).len() != glsl_type_name(GlslType::Mat3).len());
            assert(glsl_type_name(GlslType::DMat4).len() != glsl_type_name(GlslType::Mat4).len());
            assert(glsl_type_name(GlslType::DMat4)[4] != glsl_type_name(GlslType::DMat2)[4]);
            assert(glsl_type_name(GlslType::DMat4)[4] != glsl_type_name(GlslType::DMat3)[4]);
        },
        GlslType::Sampler2d => {
            assert(glsl_type_name(GlslType::Sampler2d).len() != glsl_type_name(GlslType::Bool).len());
            assert(glsl_type_name(GlslType::Sampler2d).len() != glsl_type_name(GlslType::Int).len());
            assert(glsl_type_name(GlslType::Sampler2d).len() != glsl_type_name(GlslType::UInt).len());
            assert(glsl_type_name(GlslType::Sampler2d).len() != glsl_type_name(GlslType::Float).len());
            assert(glsl_type_name(GlslType::Sampler2d).len() != glsl_type_name(GlslType::BVec2).len());
            assert(glsl_type_name(GlslType::Sampler2d).len() != glsl_type_name(GlslType::BVec3).len());
            assert(glsl_type_name(GlslType::Sampler2d).len() != glsl_type_name(GlslType::BVec4).len());
            assert(glsl_type_name(GlslType::Sampler2d).len() != glsl_type_name(GlslType::IVec2).len());
            assert(glsl_type_name(GlslType::Sampler2d).len() != glsl_type_name(GlslType::IVec3).len());
            assert(glsl_type_name(GlslType::Sampler2d).len() != glsl_type_name(GlslType::IVec4).len());
            assert(glsl_type_name(GlslType::Sampler2d).len() != glsl_type_name(GlslType::UVec2).len());
            assert(glsl_type_name(GlslType::Sampler2d).len() != glsl_type_name(GlslType::UVec3).len());
            assert(glsl_type_name(GlslType::Sampler2d).len() != glsl_type_name(GlslType::UVec4).len());
            assert(glsl_type_name(GlslType::Sampler2d).len() != glsl_type_name(GlslType::Vec2).len());
            assert(glsl_type_name(GlslType::Sampler2d).len() != glsl_type_name(GlslType::Vec3).len());
            assert(glsl_type_name(GlslType::Sampler2d).len() != glsl_type_name(GlslType::Vec4).len());
            assert(glsl_type_name(GlslType::Sampler2d).len() != glsl_type_name(GlslType::DVec2).len());
            assert(glsl_type_name(GlslType::Sampler2d).len() != glsl_type_name(GlslType::DVec3).len());
            assert(glsl_type_name(GlslType::Sampler2d).len() != glsl_type_name(GlslType::DVec4).len());
            assert(glsl_type_name(GlslType::Sampler2d).len() != glsl_type_name(GlslType::Mat2).len());
            assert(glsl_type_name(GlslType::Sampler2d).len() != glsl_type_name(GlslType::Mat3).len());
            assert(glsl_type_name(GlslType::Sampler2d).len() != glsl_type_name(GlslType::Mat4).len());
            assert(glsl_type_name(GlslType::Sampler2d).len() != glsl_type_name(GlslType::DMat2).len());
            assert(glsl_type_name(GlslType::Sampler2d).len() != glsl_type_name(GlslType::DMat3).len());
            assert(glsl_type_name(GlslType::Sampler2d).len() != glsl_type_name(GlslType::DMat4).len());
        },
        GlslType::Sampler2dArray => {
            assert(glsl_type_name(GlslType::Sampler2dArray).len() != glsl_type_name(GlslType::Bool).len());
            assert(glsl_type_name(GlslType::Sampler2dArray).len() != glsl_type_name(GlslType::Int).len());
            assert(glsl_type_name(GlslType::Sampler2dArray).len() != glsl_type_name(GlslType::UInt).len());
            assert(glsl_type_name(GlslType::Sampler2dArray).len() != glsl_type_name(GlslType::Float).len());
            assert(glsl_type_name(GlslType::Sampler2dArray).len() != glsl_type_name(GlslType::BVec2).len());
            assert(glsl_type_name(GlslType::Sampler2dArray).len() != glsl_type_name(GlslType::BVec3).len());
            assert(glsl_type_name(GlslType::Sampler2dArray).len() != glsl_type_name(GlslType::BVec4).len());
            assert(glsl_type_name(GlslType::Sampler2dArray).len() != glsl_type_name(GlslType::IVec2).len());
            assert(glsl_type_name(GlslType::Sampler2dArray).len() != glsl_type_name(GlslType::IVec3).len());
            assert(glsl_type_name(GlslType::Sampler2dArray).len() != glsl_type_name(GlslType::IVec4).len());
            assert(glsl_type_name(GlslType::Sampler2dArray).len() != glsl_type_name(GlslType::UVec2).len());
            assert(glsl_type_name(GlslType::Sampler2dArray).len() != glsl_type_name(GlslType::UVec3).len());
            assert(glsl_type_name(GlslType::Sampler2dArray).len() != glsl_type_name(GlslType::UVec4).len());
            assert(glsl_type_name(GlslType::Sampler2dArray).len() != glsl_type_name(GlslType::Vec2).len());
            assert(glsl_type_name(GlslType::Sampler2dArray).len() != glsl_type_name(GlslType::Vec3).len());
            assert(glsl_type_name(GlslType::Sampler2dArray).len() != glsl_type_name(GlslType::Vec4).len());
            assert(glsl_type_name(GlslType::Sampler2dArray).len() != glsl_type_name(GlslType::DVec2).len());
            assert(glsl_type_name(GlslType::Sampler2dArray).len() != glsl_type_name(GlslType::DVec3).len());
            assert(glsl_type_name(GlslType::Sampler2dArray).len() != glsl_type_name(GlslType::DVec4).len());
            assert(glsl_type_name(GlslType::Sampler2dArray).len() != glsl_type_name(GlslType::Mat2).len());
            assert(glsl_type_name(GlslType::Sampler2dArray).len() != glsl_type_name(GlslType::Mat3).len());
            assert(glsl_type_name(GlslType::Sampler2dArray).len() != glsl_type_name(GlslType::Mat4).len());
            assert(glsl_type_name(GlslType::Sampler2dArray).len() != glsl_type_name(GlslType::DMat2).len());
            assert(glsl_type_name(GlslType::Sampler2dArray).len() != glsl_type_name(GlslType::DMat3).len());
            assert(glsl_type_name(GlslType::Sampler2dArray).len() != glsl_type_name(GlslType::DMat4).len());
            assert(glsl_type_name(GlslType::Sampler2dArray).len() != glsl_type_name(GlslType::Sampler2d).len());
        },
    }
}


/// Position of a type in `all_glsl_types()`.
pub open spec fn glsl_type_index(t: GlslType) -> int {
    match t {
        GlslType::Bool => 0,
        GlslType::Int => 1,
        GlslType::UInt => 2,
        GlslType::Float => 3,
        GlslType::BVec2 => 4,
        GlslType::BVec3 => 5,
        GlslType::BVec4 => 6,
        GlslType::IVec2 => 7,
        GlslType::IVec3 => 8,
        GlslType::IVec4 => 9,
        GlslType::UVec2 => 10,
        GlslType::UVec3 => 11,
        GlslType::UVec4 => 12,
        GlslType::Vec2 => 13,
        GlslType::Vec3 => 14,
        GlslType::Vec4 => 15,
        GlslType::DVec2 => 16,
        GlslType::DVec3 => 17,
        GlslType::DVec4 => 18,
        GlslType::Mat2 => 19,
        GlslType::Mat3 => 20,
        GlslType::Mat4 => 21,
        GlslType::DMat2 => 22,
        GlslType::DMat3 => 23,
        GlslType::DMat4 => 24,
        GlslType::Sampler2d => 25,
        GlslType::Sampler2dArray => 26,
    }
}

/// A keyword that is found names the type found.
pub proof fn lemma_glsl_type_from_seq_names(s: Seq<char>)
    ensures
        match glsl_type_from_seq(s) {
            Some(t) => glsl_type_name(t) == s,
            None => forall|t: GlslType| glsl_type_name(t) != s,
        },
{
    if glsl_type_from_seq(s) is None {
        assert forall|t: GlslType| glsl_type_name(t) != s by {
            match t {
                GlslType::Bool => {},
                GlslType::Int => {},
                GlslType::UInt => {},
                GlslType::Float => {},
                GlslType::BVec2 => {},
                GlslType::BVec3 => {},
                GlslType::BVec4 => {},
                GlslType::IVec2 => {},
                GlslType::IVec3 => {},
                GlslType::IVec4 => {},
                GlslType::UVec2 => {},
                GlslType::UVec3 => {},
                GlslType::UVec4 => {},
                GlslType::Vec2 => {},
                GlslType::Vec3 => {},
                GlslType::Vec4 => {},
                GlslType::DVec2 => {},
                GlslType::DVec3 => {},
                GlslType::DVec4 => {},
                GlslType::Mat2 => {},
                GlslType::Mat3 => {},
                GlslType::Mat4 => {},
                GlslType::DMat2 => {},
                GlslType::DMat3 => {},
                GlslType::DMat4 => {},
                GlslType::Sampler2d => {},
                GlslType::Sampler2dArray => {},
            }
        }
    }
}

proof fn lemma_glsl_name_plain(t: GlslType)
    ensures
        glsl_type_name(t).len() > 0,
        forall|j: int|
            0 <= j < glsl_type_name(t).len() ==> !char_ws(#[trigger] glsl_type_name(t)[j]) && glsl_type_name(t)[j]
                != ' ',
{
    let kw = glsl_type_name(t);
    assert forall|j: int| 0 <= j < kw.len() implies !char_ws(#[trigger] kw[j]) && kw[j] != ' ' by {
        assert(0 <= j < 14);
        let c = kw[j];
        assert(0x30 <= (c as u32) <= 0x7a);
    }
}

impl GlslType {
    /// The type whose keyword is `s`, if any (`FromStr` on a character sequence).
    pub fn parse_chars(s: &[char]) -> (r: Option<GlslType>)
        ensures
            r == glsl_type_from_seq(s@),
    {
        proof {
            lemma_glsl_type_from_seq_names(s@);
        }
        let mut idx: usize = 0;
        while idx < 27
            invariant
                idx <= 27,
                all_glsl_types().len() == 27,
                forall|j: int| 0 <= j < idx ==> glsl_type_name(#[trigger] all_glsl_types()[j]) != s@,
            decreases 27 - idx,
        {
            let t = GlslType::at_index(idx);
            let name = str_chars(t.to_str());
            if chars_eq(name.as_slice(), s) {
                proof {
                    lemma_glsl_type_name_parses(t);
                }
                return Some(t);
            }
            idx = idx + 1;
        }
        proof {
            if glsl_type_from_seq(s@) is Some {
                let t = glsl_type_from_seq(s@)->0;
                assert(all_glsl_types()[glsl_type_index(t)] == t);
            }
        }
        None
    }

    /// The type whose keyword is `s` (`FromStr`), or a render error.
    pub fn from_str(s: &str) -> (r: HellResult<GlslType>)
        ensures
            match r {
                Ok(t) => glsl_type_from_seq(s@) == Some(t),
                Err(e) => glsl_type_from_seq(s@) is None && e.kind == HellErrorKind::RenderError && e.msg@
                    == "failed to parse glsl-type"@,
            },
    {
        let chars = str_chars(s);
        match GlslType::parse_chars(chars.as_slice()) {
            Some(t) => Ok(t),
            None => Err(HellError::render_msg_err("failed to parse glsl-type")),
        }
    }
}



// ----------------------------------------------------------------------------
// scopes and shader stages
// ----------------------------------------------------------------------------

/// The scope a group of uniforms belongs to.
#[derive(Debug, Clone, Copy, PartialEq, Eq, Structural)]
pub enum ShaderScopeType {
    Global,
    Shared,
    Instance,
    Local,
}

impl Default for ShaderScopeType {
    fn default() -> (r: Self)
        ensures
            r == ShaderScopeType::Global,
    {
        ShaderScopeType::Global
    }
}

/// Position of a scope in the parser's scope table.
pub open spec fn scope_index(s: ShaderScopeType) -> int {
    match s {
        ShaderScopeType::Global => 0,
        ShaderScopeType::Shared => 1,
        ShaderScopeType::Instance => 2,
        ShaderScopeType::Local => 3,
    }
}

/// The keyword that names a scope in a `#hell` instruction.
pub open spec fn scope_keyword(s: ShaderScopeType) -> Seq<char> {
    match s {
        ShaderScopeType::Global => seq!['g', 'l', 'o', 'b', 'a', 'l'],
        ShaderScopeType::Shared => seq!['s', 'h', 'a', 'r', 'e', 'd'],
        ShaderScopeType::Instance => seq!['i', 'n', 's', 't', 'a', 'n', 'c', 'e'],
        ShaderScopeType::Local => seq!['l', 'o', 'c', 'a', 'l'],
    }
}

/// The uniform-block name emitted for a scope.
pub open spec fn scope_struct_name(s: ShaderScopeType) -> Seq<char> {
    match s {
        ShaderScopeType::Global => seq!['G', 'l', 'o', 'b', 'a', 'l', 'U', 'b', 'o'],
        ShaderScopeType::Shared => seq!['S', 'h', 'a', 'r', 'e', 'd', 'U', 'b', 'o'],
        ShaderScopeType::Instance => seq!['I', 'n', 's', 't', 'a', 'n', 'c', 'e', 'U', 'b', 'o'],
        ShaderScopeType::Local => seq!['L', 'o', 'c', 'a', 'l', 'U', 'b', 'o'],
    }
}

/// The scope named by `txt`, surrounding whitespace ignored.
pub open spec fn scope_type_from_seq(txt: Seq<char>) -> Option<ShaderScopeType> {
    let t = trim_seq(txt);
    if t == scope_keyword(ShaderScopeType::Global) {
        Some(ShaderScopeType::Global)
    } else if t == scope_keyword(ShaderScopeType::Shared) {
        Some(ShaderScopeType::Shared)
    } else if t == scope_keyword(ShaderScopeType::Instance) {
        Some(ShaderScopeType::Instance)
    } else if t == scope_keyword(ShaderScopeType::Local) {
        Some(ShaderScopeType::Local)
    } else {
        None
    }
}

impl ShaderScopeType {
    pub const SCOPE_COUNT: usize = 4;

    pub fn struct_name(&self) -> (r: &'static str)
        ensures
            r@ == scope_struct_name(*self),
    {
        match self {
            ShaderScopeType::Global => {
                proof {
                    reveal_strlit("GlobalUbo");
                }
                "GlobalUbo"
            },
            ShaderScopeType::Shared => {
                proof {
                    reveal_strlit("SharedUbo");
                }
                "SharedUbo"
            },
            ShaderScopeType::Instance => {
                proof {
                    reveal_strlit("InstanceUbo");
                }
                "InstanceUbo"
            },
            ShaderScopeType::Local => {
                proof {
                    reveal_strlit("LocalUbo");
                }
                "LocalUbo"
            },
        }
    }

    /// The instance name emitted for a scope's uniform block (its keyword).
    pub fn struct_typedef(&self) -> (r: &'static str)
        ensures
            r@ == scope_keyword(*self),
    {
        match self {
            ShaderScopeType::Global => {
                proof {
                    reveal_strlit("global");
                }
                "global"
            },
            ShaderScopeType::Shared => {
                proof {
                    reveal_strlit("shared");
                }
                "shared"
            },
            ShaderScopeType::Instance => {
                proof {
                    reveal_strlit("instance");
                }
                "instance"
            },
            ShaderScopeType::Local => {
                proof {
                    reveal_strlit("local");
                }
                "local"
            },
        }
    }

    /// The scope at table position `idx` (`FromPrimitive::from_usize`).
    pub fn from_usize(idx: usize) -> (r: Option<ShaderScopeType>)
        ensures
            match r {
                Some(s) => idx < 4 && scope_index(s) == idx,
                None => idx >= 4,
            },
    {
        match idx {
            0 => Some(ShaderScopeType::Global),
            1 => Some(ShaderScopeType::Shared),
            2 => Some(ShaderScopeType::Instance),
            3 => Some(ShaderScopeType::Local),
            _ => None,
        }
    }

    /// Table position of this scope.
    pub fn index(&self) -> (r: usize)
        ensures
            r == scope_index(*self),
    {
        match self {
            ShaderScopeType::Global => 0,
            ShaderScopeType::Shared => 1,
            ShaderScopeType::Instance => 2,
            ShaderScopeType::Local => 3,
        }
    }

    /// The scope named by `txt`, surrounding whitespace ignored.
    pub fn parse_txt(txt: &[char]) -> (r: Option<ShaderScopeType>)
        ensures
            r == scope_type_from_seq(txt@),
    {
        let t = trim(txt);
        let t = t.as_slice();
        if chars_eq(t, vec!['g', 'l', 'o', 'b', 'a', 'l'].as_slice()) {
            Some(ShaderScopeType::Global)
        } else if chars_eq(t, vec!['s', 'h', 'a', 'r', 'e', 'd'].as_slice()) {
            Some(ShaderScopeType::Shared)
        } else if chars_eq(t, vec!['i', 'n', 's', 't', 'a', 'n', 'c', 'e'].as_slice()) {
            Some(ShaderScopeType::Instance)
        } else if chars_eq(t, vec!['l', 'o', 'c', 'a', 'l'].as_slice()) {
            Some(ShaderScopeType::Local)
        } else {
            None
        }
    }
}

/// A scope's keyword, with any whitespace around it, parses to that scope.
pub proof fn lemma_scope_keyword_parses(s: ShaderScopeType, a: Seq<char>, b: Seq<char>)
    requires
        all_ws(a),
        all_ws(b),
    ensures
        scope_type_from_seq(a + scope_keyword(s) + b) == Some(s),
{
    let kw = scope_keyword(s);
    lemma_trim_padded(a, kw, b);
    lemma_scope_parse_only_keywords(a + kw + b);
}

/// Text parses to a scope exactly when, trimmed, it is that scope's keyword:
/// anything else (another case, a longer word, nothing) parses to no scope.
pub proof fn lemma_scope_parse_only_keywords(txt: Seq<char>)
    ensures
        forall|s: ShaderScopeType|
            scope_type_from_seq(txt) == Some(s) <==> trim_seq(txt) == #[trigger] scope_keyword(s),
        scope_type_from_seq(txt) is None <==> forall|s: ShaderScopeType| trim_seq(txt) != #[trigger] scope_keyword(s),
{
    lemma_scope_keywords_distinct();
    assert forall|s: ShaderScopeType| trim_seq(txt) == #[trigger] scope_keyword(s) implies scope_type_from_seq(txt)
        == Some(s) by {
        lemma_scope_keywords_distinct();
    }
    if scope_type_from_seq(txt) is None {
        assert forall|s: ShaderScopeType| trim_seq(txt) != #[trigger] scope_keyword(s) by {
            match s {
                ShaderScopeType::Global => {},
                ShaderScopeType::Shared => {},
                ShaderScopeType::Instance => {},
                ShaderScopeType::Local => {},
            }
        }
    }
}

/// No two scopes share a keyword.
proof fn lemma_scope_keywords_distinct()
    ensures
        forall|a: ShaderScopeType, b: ShaderScopeType| a != b ==> #[trigger] scope_keyword(a) != #[trigger] scope_keyword(b),
{
    assert(scope_keyword(ShaderScopeType::Global)[0] != scope_keyword(ShaderScopeType::Shared)[0]);
    assert(scope_keyword(ShaderScopeType::Global)[0] != scope_keyword(ShaderScopeType::Local)[0]);
    assert(scope_keyword(ShaderScopeType::Global)[0] != scope_keyword(ShaderScopeType::Instance)[0]);
    assert(scope_keyword(ShaderScopeType::Shared)[0] != scope_keyword(ShaderScopeType::Instance)[0]);
    assert(scope_keyword(ShaderScopeType::Shared)[0] != scope_keyword(ShaderScopeType::Local)[0]);
    assert(scope_keyword(ShaderScopeType::Instance)[0] != scope_keyword(ShaderScopeType::Local)[0]);
}

/// A shader stage.
#[derive(Debug, Clone, Copy, PartialEq, Eq, Structural)]
pub enum ShaderType {
    Vertex,
    Fragment,
}

pub open spec fn shader_type_index(t: ShaderType) -> int {
    match t {
        ShaderType::Vertex => 0,
        ShaderType::Fragment => 1,
    }
}

/// The stage named by `txt` ("vert"/"vertex" or "frag"/"fragment"), leading
/// whitespace ignored.
pub open spec fn shader_type_from_seq(txt: Seq<char>) -> Option<ShaderType> {
    let t = trim_start_seq(txt);
    if t == seq!['v', 'e', 'r', 't'] || t == seq!['v', 'e', 'r', 't', 'e', 'x'] {
        Some(ShaderType::Vertex)
    } else if t == seq!['f', 'r', 'a', 'g'] || t == seq!['f', 'r', 'a', 'g', 'm', 'e', 'n', 't'] {
        Some(ShaderType::Fragment)
    } else {
        None
    }
}

/// The stage names "vert", "vertex", "frag" and "fragment", after any
/// whitespace, parse to their stage.
pub proof fn lemma_stage_names_parse(a: Seq<char>)
    requires
        all_ws(a),
    ensures
        shader_type_from_seq(a + seq!['v', 'e', 'r', 't']) == Some(ShaderType::Vertex),
        shader_type_from_seq(a + seq!['v', 'e', 'r', 't', 'e', 'x']) == Some(ShaderType::Vertex),
        shader_type_from_seq(a + seq!['f', 'r', 'a', 'g']) == Some(ShaderType::Fragment),
        shader_type_from_seq(a + seq!['f', 'r', 'a', 'g', 'm', 'e', 'n', 't']) == Some(ShaderType::Fragment),
{
    let e = Seq::<char>::empty();
    lemma_trim_padded(a, seq!['v', 'e', 'r', 't'], e);
    lemma_trim_padded(a, seq!['v', 'e', 'r', 't', 'e', 'x'], e);
    lemma_trim_padded(a, seq!['f', 'r', 'a', 'g'], e);
    lemma_trim_padded(a, seq!['f', 'r', 'a', 'g', 'm', 'e', 'n', 't'], e);
    assert(seq!['v', 'e', 'r', 't'] != seq!['f', 'r', 'a', 'g'] && seq!['v', 'e', 'r', 't'] != seq![
        'f',
        'r',
        'a',
        'g',
        'm',
        'e',
        'n',
        't',
    ]) by {
        assert(seq!['v', 'e', 'r', 't'][0] != seq!['f', 'r', 'a', 'g'][0]);
        assert(seq!['v', 'e', 'r', 't'].len() != seq!['f', 'r', 'a', 'g', 'm', 'e', 'n', 't'].len());
    }
    assert(seq!['v', 'e', 'r', 't', 'e', 'x'] != seq!['f', 'r', 'a', 'g'] && seq!['v', 'e', 'r', 't', 'e', 'x']
        != seq!['f', 'r', 'a', 'g', 'm', 'e', 'n', 't']) by {
        assert(seq!['v', 'e', 'r', 't', 'e', 'x'][0] != seq!['f', 'r', 'a', 'g'][0]);
        assert(seq!['v', 'e', 'r', 't', 'e', 'x'].len() != seq!['f', 'r', 'a', 'g', 'm', 'e', 'n', 't'].len());
    }
}

impl ShaderType {
    pub const SHADER_TYPE_COUNT: usize = 2;

    /// The stage named by `txt`, leading whitespace ignored.
    pub fn parse_txt(txt: &[char]) -> (r: Option<ShaderType>)
        ensures
            r == shader_type_from_seq(txt@),
    {
        let t = trim_start(txt);
        let t = t.as_slice();
        if chars_eq(t, vec!['v', 'e', 'r', 't'].as_slice()) || chars_eq(
            t,
            vec!['v', 'e', 'r', 't', 'e', 'x'].as_slice(),
        ) {
            Some(ShaderType::Vertex)
        } else if chars_eq(t, vec!['f', 'r', 'a', 'g'].as_slice()) || chars_eq(
            t,
            vec!['f', 'r', 'a', 'g', 'm', 'e', 'n', 't'].as_slice(),
        ) {
            Some(ShaderType::Fragment)
        } else {
            None
        }
    }

    /// Table position of this stage.
    pub fn index(&self) -> (r: usize)
        ensures
            r == shader_type_index(*self),
    {
        match self {
            ShaderType::Vertex => 0,
            ShaderType::Fragment => 1,
        }
    }
}


// ----------------------------------------------------------------------------
// instructions
// ----------------------------------------------------------------------------

/// A `#hell` instruction.
#[derive(Debug, Clone, Copy, PartialEq, Eq, Structural)]
pub enum HellInstruction {
    DefineScope(ShaderScopeType),
    UseScope(ShaderScopeType),
    DefineShader(ShaderType),
}

/// Which instruction a pattern introduces.
#[derive(Debug, Clone, Copy, PartialEq, Eq, Structural)]
pub enum InstructionKind {
    DefineScope,
    UseScope,
    DefineShader,
}

pub open spec fn scope_pattern() -> Seq<char> {
    seq!['s', 'c', 'o', 'p', 'e']
}

pub open spec fn use_scope_pattern() -> Seq<char> {
    seq!['u', 's', 'e', '-', 's', 'c', 'o', 'p', 'e']
}

pub open spec fn shader_pattern() -> Seq<char> {
    seq!['s', 'h', 'a', 'd', 'e', 'r']
}

/// The instruction of `kind` whose argument is `after`.
pub open spec fn generate_spec(kind: InstructionKind, after: Seq<char>) -> Option<HellInstruction> {
    match kind {
        InstructionKind::DefineScope => match scope_type_from_seq(after) {
            Some(s) => Some(HellInstruction::DefineScope(s)),
            None => None,
        },
        InstructionKind::UseScope => match scope_type_from_seq(after) {
            Some(s) => Some(HellInstruction::UseScope(s)),
            None => None,
        },
        InstructionKind::DefineShader => match shader_type_from_seq(after) {
            Some(t) => Some(HellInstruction::DefineShader(t)),
            None => None,
        },
    }
}

/// `pat` followed by an argument that `kind` accepts.
pub open spec fn check_spec(pat: Seq<char>, txt: Seq<char>, kind: InstructionKind) -> Option<
    HellInstruction,
> {
    if starts_with_seq(txt, pat) {
        generate_spec(kind, txt.skip(pat.len() as int))
    } else {
        None
    }
}

/// The instruction written in `txt` (the text after `#hell`): the patterns
/// "scope", "use-scope" and "shader" are tried in that order.
pub open spec fn instruction_from_seq(txt: Seq<char>) -> Option<HellInstruction> {
    let t = trim_start_seq(txt);
    if check_spec(scope_pattern(), t, InstructionKind::DefineScope) is Some {
        check_spec(scope_pattern(), t, InstructionKind::DefineScope)
    } else if check_spec(use_scope_pattern(), t, InstructionKind::UseScope) is Some {
        check_spec(use_scope_pattern(), t, InstructionKind::UseScope)
    } else {
        check_spec(shader_pattern(), t, InstructionKind::DefineShader)
    }
}

impl HellInstruction {
    pub fn define_scope(after: &[char]) -> (r: Option<HellInstruction>)
        ensures
            r == generate_spec(InstructionKind::DefineScope, after@),
    {
        match ShaderScopeType::parse_txt(after) {
            Some(s) => Some(HellInstruction::DefineScope(s)),
            None => None,
        }
    }

    pub fn use_scope(after: &[char]) -> (r: Option<HellInstruction>)
        ensures
            r == generate_spec(InstructionKind::UseScope, after@),
    {
        match ShaderScopeType::parse_txt(after) {
            Some(s) => Some(HellInstruction::UseScope(s)),
            None => None,
        }
    }

    pub fn define_shader(after: &[char]) -> (r: Option<HellInstruction>)
        ensures
            r == generate_spec(InstructionKind::DefineShader, after@),
    {
        match ShaderType::parse_txt(after) {
            Some(t) => Some(HellInstruction::DefineShader(t)),
            None => None,
        }
    }

    fn generate(kind: InstructionKind, after: &[char]) -> (r: Option<HellInstruction>)
        ensures
            r == generate_spec(kind, after@),
    {
        match kind {
            InstructionKind::DefineScope => HellInstruction::define_scope(after),
            InstructionKind::UseScope => HellInstruction::use_scope(after),
            InstructionKind::DefineShader => HellInstruction::define_shader(after),
        }
    }

    /// The instruction of `kind` if `txt` starts with `pat`, read from the rest.
    pub fn check_txt(pat: &[char], txt: &[char], kind: InstructionKind) -> (r: Option<
        HellInstruction,
    >)
        ensures
            r == check_spec(pat@, txt@, kind),
    {
        if starts_with(txt, pat) {
            let rest = copy_range(txt, pat.len(), txt.len());
            assert(rest@ =~= txt@.skip(pat@.len() as int));
            HellInstruction::generate(kind, rest.as_slice())
        } else {
            None
        }
    }

    /// The instruction written in `txt` (the text after `#hell`).
    pub fn parse_txt(txt: &[char]) -> (r: Option<HellInstruction>)
        ensures
            r == instruction_from_seq(txt@),
    {
        let t = trim_start(txt);
        let res = HellInstruction::check_txt(
            vec!['s', 'c', 'o', 'p', 'e'].as_slice(),
            t.as_slice(),
            InstructionKind::DefineScope,
        );
        if res.is_some() {
            return res;
        }
        let res = HellInstruction::check_txt(
            vec!['u', 's', 'e', '-', 's', 'c', 'o', 'p', 'e'].as_slice(),
            t.as_slice(),
            InstructionKind::UseScope,
        );
        if res.is_some() {
            return res;
        }
        HellInstruction::check_txt(
            vec!['s', 'h', 'a', 'd', 'e', 'r'].as_slice(),
            t.as_slice(),
            InstructionKind::DefineShader,
        )
    }
}

// ----------------------------------------------------------------------------
// uniform declarations
// ----------------------------------------------------------------------------

/// A uniform declaration `<type> <name>;`.
#[derive(Debug)]
pub struct GlslVarDeclaration {
    pub var_type: GlslType,
    pub var_name: Vec<char>,
}

impl View for GlslVarDeclaration {
    type V = (GlslType, Seq<char>);

    open spec fn view(&self) -> (GlslType, Seq<char>) {
        (self.var_type, self.var_name@)
    }
}

/// The declaration written in `txt`: leading whitespace skipped, a GLSL type
/// keyword, one space, then the name with its trailing `;` removed.
pub open spec fn declaration_from_seq(txt: Seq<char>) -> Option<(GlslType, Seq<char>)> {
    match split_once_seq(trim_start_seq(txt), ' ') {
        Some((type_raw, name)) => match glsl_type_from_seq(type_raw) {
            Some(t) => Some((t, trim_end_char_seq(name, ';'))),
            None => None,
        },
        None => None,
    }
}

impl GlslVarDeclaration {
    /// The declaration written in `txt`, if it is one.
    pub fn parse_txt(txt: &[char]) -> (r: Option<GlslVarDeclaration>)
        ensures
            match r {
                Some(d) => declaration_from_seq(txt@) == Some(d@),
                None => declaration_from_seq(txt@) is None,
            },
    {
        let t = trim_start(txt);
        match split_once(t.as_slice(), ' ') {
            Some((type_raw, name)) => match GlslType::parse_chars(type_raw.as_slice()) {
                Some(var_type) => {
                    let var_name = trim_end_char(name.as_slice(), ';');
                    Some(GlslVarDeclaration { var_type, var_name })
                },
                None => None,
            },
            None => None,
        }
    }

    /// A copy of this declaration.
    pub fn duplicate(&self) -> (r: GlslVarDeclaration)
        ensures
            r@ == self@,
    {
        let var_name = copy_range(self.var_name.as_slice(), 0, self.var_name.len());
        assert(var_name@ =~= self.var_name@);
        GlslVarDeclaration { var_type: self.var_type, var_name }
    }
}


// ----------------------------------------------------------------------------
// lines
// ----------------------------------------------------------------------------

/// One classified line of a shader description.
#[derive(Debug)]
pub enum HellLine {
    /// A `#hell` line whose instruction did not parse (the trimmed line).
    Invalid(Vec<char>),
    Instruction(HellInstruction),
    UniformDeclaration(GlslVarDeclaration),
    /// Any other line, trimmed.
    PlainText(Vec<char>),
    /// A `//` comment: the text after the slashes.
    Comment(Vec<char>),
}

/// Mathematical model of a `HellLine`.
pub enum HellLineView {
    Invalid(Seq<char>),
    Instruction(HellInstruction),
    UniformDeclaration((GlslType, Seq<char>)),
    PlainText(Seq<char>),
    Comment(Seq<char>),
}

impl View for HellLine {
    type V = HellLineView;

    open spec fn view(&self) -> HellLineView {
        match self {
            HellLine::Invalid(t) => HellLineView::Invalid(t@),
            HellLine::Instruction(i) => HellLineView::Instruction(*i),
            HellLine::UniformDeclaration(d) => HellLineView::UniformDeclaration(d@),
            HellLine::PlainText(t) => HellLineView::PlainText(t@),
            HellLine::Comment(t) => HellLineView::Comment(t@),
        }
    }
}

pub open spec fn instr_pattern() -> Seq<char> {
    seq!['#', 'h', 'e', 'l', 'l']
}

pub open spec fn comment_pattern() -> Seq<char> {
    seq!['/', '/']
}

/// How a line is classified: trimmed, a `#hell` line is an instruction (or
/// invalid), else a uniform declaration, else a `//` comment, else plain text.
pub open spec fn line_from_seq(line: Seq<char>) -> HellLineView {
    let l = trim_seq(line);
    if starts_with_seq(l, instr_pattern()) {
        match instruction_from_seq(l.skip(5)) {
            Some(i) => HellLineView::Instruction(i),
            None => HellLineView::Invalid(l),
        }
    } else if declaration_from_seq(l) is Some {
        HellLineView::UniformDeclaration(declaration_from_seq(l)->0)
    } else if starts_with_seq(l, comment_pattern()) {
        HellLineView::Comment(l.skip(2))
    } else {
        HellLineView::PlainText(l)
    }
}

/// No GLSL type keyword starts like an instruction line.
proof fn lemma_glsl_name_not_instr(t: GlslType)
    ensures
        glsl_type_name(t).len() > 0,
        glsl_type_name(t)[0] != '#',
{
    lemma_glsl_name_plain(t);
    match t {
        GlslType::Bool => {},
        GlslType::Int => {},
        GlslType::UInt => {},
        GlslType::Float => {},
        GlslType::BVec2 => {},
        GlslType::BVec3 => {},
        GlslType::BVec4 => {},
        GlslType::IVec2 => {},
        GlslType::IVec3 => {},
        GlslType::IVec4 => {},
        GlslType::UVec2 => {},
        GlslType::UVec3 => {},
        GlslType::UVec4 => {},
        GlslType::Vec2 => {},
        GlslType::Vec3 => {},
        GlslType::Vec4 => {},
        GlslType::DVec2 => {},
        GlslType::DVec3 => {},
        GlslType::DVec4 => {},
        GlslType::Mat2 => {},
        GlslType::Mat3 => {},
        GlslType::Mat4 => {},
        GlslType::DMat2 => {},
        GlslType::DMat3 => {},
        GlslType::DMat4 => {},
        GlslType::Sampler2d => {},
        GlslType::Sampler2dArray => {},
    }
}

/// The line holding a declaration's text, with any whitespace around it, is
/// that declaration, whatever its type (samplers included), as long as the
/// name does not end with `;`.
pub proof fn lemma_declaration_line(a: Seq<char>, d: (GlslType, Seq<char>), b: Seq<char>)
    requires
        all_ws(a),
        all_ws(b),
        !(d.1.len() > 0 && d.1.last() == ';'),
    ensures
        line_from_seq(a + declaration_text(d) + b) == HellLineView::UniformDeclaration(d),
{
    let x = declaration_text(d);
    let kw = glsl_type_name(d.0);
    lemma_glsl_name_plain(d.0);
    lemma_glsl_name_not_instr(d.0);
    assert(x[0] == kw[0]);
    assert(x.last() == ';');
    lemma_trim_padded(a, x, b);
    lemma_declaration_round_trip(d);
    if starts_with_seq(x, instr_pattern()) {
        assert(x.take(5)[0] == x[0]);
    }
}

/// The line `#hell scope <keyword>`, with any whitespace around it, defines
/// that scope.
pub proof fn lemma_scope_definition_line(a: Seq<char>, s: ShaderScopeType, b: Seq<char>)
    requires
        all_ws(a),
        all_ws(b),
    ensures
        line_from_seq(a + (instr_pattern() + seq![' '] + scope_pattern() + seq![' '] + scope_keyword(s)) + b)
            == HellLineView::Instruction(HellInstruction::DefineScope(s)),
{
    let kw = scope_keyword(s);
    let x = instr_pattern() + seq![' '] + scope_pattern() + seq![' '] + kw;
    assert(x[0] == '#');
    assert(x.last() == kw.last());
    assert(!char_ws(kw.last()) && !char_ws(kw[0])) by {
        match s {
            ShaderScopeType::Global => {},
            ShaderScopeType::Shared => {},
            ShaderScopeType::Instance => {},
            ShaderScopeType::Local => {},
        }
    }
    lemma_trim_padded(a, x, b);
    assert(x.take(5) =~= instr_pattern());
    let rest = x.skip(5);
    assert(rest =~= seq![' '] + (scope_pattern() + seq![' '] + kw));
    lemma_trim_padded(seq![' '], scope_pattern() + seq![' '] + kw, Seq::empty());
    assert(seq![' '] + (scope_pattern() + seq![' '] + kw) + Seq::<char>::empty() =~= rest);
    let t = scope_pattern() + seq![' '] + kw;
    assert(t.take(5) =~= scope_pattern());
    assert(t.skip(5) =~= seq![' '] + kw + Seq::<char>::empty());
    lemma_scope_keyword_parses(s, seq![' '], Seq::empty());
}

/// The line `#hell shader vert` (or `frag`), with any whitespace around it,
/// defines the vertex (or fragment) stage.
pub proof fn lemma_shader_definition_line(a: Seq<char>, vertex: bool, b: Seq<char>)
    requires
        all_ws(a),
        all_ws(b),
    ensures
        ({
            let name = if vertex {
                seq!['v', 'e', 'r', 't']
            } else {
                seq!['f', 'r', 'a', 'g']
            };
            let t = if vertex {
                ShaderType::Vertex
            } else {
                ShaderType::Fragment
            };
            line_from_seq(a + (instr_pattern() + seq![' '] + shader_pattern() + seq![' '] + name) + b)
                == HellLineView::Instruction(HellInstruction::DefineShader(t))
        }),
{
    let name = if vertex {
        seq!['v', 'e', 'r', 't']
    } else {
        seq!['f', 'r', 'a', 'g']
    };
    let x = instr_pattern() + seq![' '] + shader_pattern() + seq![' '] + name;
    assert(x[0] == '#');
    assert(x.last() == name.last());
    lemma_trim_padded(a, x, b);
    assert(x.take(5) =~= instr_pattern());
    let rest = x.skip(5);
    let t = shader_pattern() + seq![' '] + name;
    assert(rest =~= seq![' '] + t);
    lemma_trim_padded(seq![' '], t, Seq::empty());
    assert(seq![' '] + t + Seq::<char>::empty() =~= rest);
    assert(t.take(5)[1] != scope_pattern()[1]);
    assert(t.take(9)[0] != use_scope_pattern()[0]);
    assert(t.take(6) =~= shader_pattern());
    assert(t.skip(6) =~= seq![' '] + name);
    lemma_stage_names_parse(seq![' ']);
}

impl HellLine {
    /// Classifies one line.
    pub fn parce_line(line: &[char]) -> (r: HellLine)
        ensures
            r@ == line_from_seq(line@),
    {
        let l = trim(line);
        let l = l.as_slice();
        if starts_with(l, vec!['#', 'h', 'e', 'l', 'l'].as_slice()) {
            let rest = copy_range(l, 5, l.len());
            assert(rest@ =~= l@.skip(5));
            if let Some(instr) = HellInstruction::parse_txt(rest.as_slice()) {
                return HellLine::Instruction(instr);
            }
            let inv = copy_range(l, 0, l.len());
            assert(inv@ =~= l@);
            return HellLine::Invalid(inv);
        }
        if let Some(decl) = GlslVarDeclaration::parse_txt(l) {
            return HellLine::UniformDeclaration(decl);
        }
        if starts_with(l, vec!['/', '/'].as_slice()) {
            let rest = copy_range(l, 2, l.len());
            assert(rest@ =~= l@.skip(2));
            return HellLine::Comment(rest);
        }
        let txt = copy_range(l, 0, l.len());
        assert(txt@ =~= l@);
        HellLine::PlainText(txt)
    }
}


// ----------------------------------------------------------------------------
// scopes, shaders and the parser
// ----------------------------------------------------------------------------

/// Model of a declaration's text `<type> <name>;`.
pub open spec fn declaration_text(d: (GlslType, Seq<char>)) -> Seq<char> {
    glsl_type_name(d.0) + seq![' '] + d.1 + seq![';']
}

/// The uniform lines of a block: each declaration, tab-indented, on its own line.
pub open spec fn uniforms_text(us: Seq<(GlslType, Seq<char>)>) -> Seq<char>
    decreases us.len(),
{
    if us.len() == 0 {
        Seq::empty()
    } else {
        uniforms_text(us.drop_last()) + seq!['\t'] + declaration_text(us.last()) + seq!['\n']
    }
}

/// The uniform lines of two lists of declarations, one after the other, are
/// those of the first followed by those of the second.
pub proof fn lemma_uniforms_text_concat(a: Seq<(GlslType, Seq<char>)>, b: Seq<(GlslType, Seq<char>)>)
    ensures
        uniforms_text(a + b) == uniforms_text(a) + uniforms_text(b),
    decreases b.len(),
{
    if b.len() == 0 {
        assert(a + b =~= a);
        assert(uniforms_text(a) + Seq::empty() =~= uniforms_text(a));
    } else {
        lemma_uniforms_text_concat(a, b.drop_last());
        assert((a + b).drop_last() =~= a + b.drop_last());
        assert((a + b).last() == b.last());
        assert(uniforms_text(a + b) =~= uniforms_text(a) + uniforms_text(b));
    }
}

/// One declaration gives one line: a tab, the declaration's text, a newline.
pub proof fn lemma_uniforms_text_one(d: (GlslType, Seq<char>))
    ensures
        uniforms_text(seq![d]) == seq!['\t'] + declaration_text(d) + seq!['\n'],
{
    assert(seq![d].drop_last() =~= Seq::<(GlslType, Seq<char>)>::empty());
    assert(seq![d].last() == d);
    assert(uniforms_text(Seq::<(GlslType, Seq<char>)>::empty()) == Seq::<char>::empty());
    assert(Seq::<char>::empty() + seq!['\t'] + declaration_text(d) + seq!['\n'] =~= seq!['\t'] + declaration_text(d)
        + seq!['\n']);
}

/// Writing a declaration and reading the text back gives the declaration,
/// as long as its name does not end with `;` (reading strips trailing `;`).
pub proof fn lemma_declaration_round_trip(d: (GlslType, Seq<char>))
    requires
        !(d.1.len() > 0 && d.1.last() == ';'),
    ensures
        declaration_from_seq(declaration_text(d)) == Some(d),
{
    let kw = glsl_type_name(d.0);
    let name = d.1;
    let txt = declaration_text(d);
    lemma_glsl_name_plain(d.0);
    lemma_glsl_type_name_parses(d.0);
    assert(txt =~= kw + (seq![' '] + name + seq![';']));
    assert(txt[0] == kw[0]);
    assert(txt.last() == ';');
    let e = Seq::<char>::empty();
    lemma_trim_padded(e, txt, e);
    assert(e + txt =~= txt);
    assert(trim_start_seq(txt) == txt);
    assert forall|j: int| 0 <= j < kw.len() implies txt[j] != ' ' by {
        assert(txt[j] == kw[j]);
    }
    lemma_find_char_unique(txt, ' ', kw.len() as int);
    assert(txt.take(kw.len() as int) =~= kw);
    let rest = txt.skip(kw.len() as int + 1);
    assert(rest =~= name.push(';'));
    assert(rest.drop_last() =~= name);
    assert(trim_end_char_seq(rest, ';') == trim_end_char_seq(name, ';'));
}

impl GlslVarDeclaration {
    /// The declaration as GLSL text (`Display`).
    pub fn to_text(&self) -> (r: Vec<char>)
        ensures
            r@ == declaration_text(self@),
    {
        let mut r = str_chars(self.var_type.to_str());
        r.push(' ');
        append_chars(&mut r, self.var_name.as_slice());
        r.push(';');
        r
    }
}

/// Model of a `ScopeInfo`.
pub struct ScopeInfoView {
    pub is_used: bool,
    pub scope_type: ShaderScopeType,
    pub set: usize,
    pub binding: usize,
    pub uniforms: Seq<(GlslType, Seq<char>)>,
}

/// The uniforms collected for one scope.
#[derive(Debug)]
pub struct ScopeInfo {
    pub is_used: bool,
    pub scope_type: ShaderScopeType,
    pub set: usize,
    pub binding: usize,
    pub uniforms: Vec<GlslVarDeclaration>,
}

pub open spec fn decls_view(v: Seq<GlslVarDeclaration>) -> Seq<(GlslType, Seq<char>)> {
    v.map_values(|d: GlslVarDeclaration| d@)
}

impl View for ScopeInfo {
    type V = ScopeInfoView;

    open spec fn view(&self) -> ScopeInfoView {
        ScopeInfoView {
            is_used: self.is_used,
            scope_type: self.scope_type,
            set: self.set,
            binding: self.binding,
            uniforms: decls_view(self.uniforms@),
        }
    }
}

/// The uniform block a used scope contributes to a shader; nothing for an unused one.
pub open spec fn scope_text(s: ScopeInfoView) -> Seq<char> {
    if s.is_used {
        seq!['l', 'a', 'y', 'o', 'u', 't', '(', 's', 'e', 't', ' ', '=', ' '] + decimal_seq(s.set as nat) + seq![',', ' ', 'b', 'i', 'n', 'd', 'i', 'n', 'g', ' ', '=', ' '] + decimal_seq(s.binding as nat)
            + seq![')', ' '] + scope_struct_name(s.scope_type) + seq![' ', '{', '\n'] + uniforms_text(s.uniforms)
            + seq!['}', ' '] + scope_keyword(s.scope_type) + seq![';', '\n']
    } else {
        Seq::empty()
    }
}

/// A scope as it stands before any line is processed.
pub open spec fn fresh_scope(t: ShaderScopeType) -> ScopeInfoView {
    ScopeInfoView { is_used: false, scope_type: t, set: 0, binding: 0, uniforms: Seq::empty() }
}

impl ScopeInfo {
    pub fn new(scope_type: ShaderScopeType) -> (r: ScopeInfo)
        ensures
            r@ == fresh_scope(scope_type),
    {
        let r = ScopeInfo { is_used: false, scope_type, set: 0, binding: 0, uniforms: Vec::new() };
        assert(decls_view(r.uniforms@) =~= Seq::empty());
        r
    }

    /// Assigns the descriptor-set index of this scope.
    pub fn finalize(&mut self, set_idx: usize)
        ensures
            final(self)@ == (ScopeInfoView { set: set_idx, ..old(self)@ }),
    {
        self.set = set_idx;
    }

    fn uniforms_text(&self) -> (r: Vec<char>)
        ensures
            r@ == uniforms_text(decls_view(self.uniforms@)),
    {
        let mut r: Vec<char> = Vec::new();
        let mut i: usize = 0;
        while i < self.uniforms.len()
            invariant
                i <= self.uniforms@.len(),
                r@ == uniforms_text(decls_view(self.uniforms@).take(i as int)),
            decreases self.uniforms@.len() - i,
        {
            let ghost before = decls_view(self.uniforms@).take(i as int);
            r.push('\t');
            let d = self.uniforms[i].to_text();
            append_chars(&mut r, d.as_slice());
            r.push('\n');
            i = i + 1;
            assert(decls_view(self.uniforms@).take(i as int).drop_last() =~= before);
        }
        assert(decls_view(self.uniforms@).take(i as int) =~= decls_view(self.uniforms@));
        r
    }

    /// The uniform block of this scope as GLSL text (`Display`).
    pub fn to_text(&self) -> (r: Vec<char>)
        ensures
            r@ == scope_text(self@),
    {
        let mut r: Vec<char> = Vec::new();
        if self.is_used {
            append_chars(&mut r, vec!['l', 'a', 'y', 'o', 'u', 't', '(', 's', 'e', 't', ' ', '=', ' '].as_slice());
            append_chars(&mut r, usize_to_decimal(self.set).as_slice());
            append_chars(&mut r, vec![',', ' ', 'b', 'i', 'n', 'd', 'i', 'n', 'g', ' ', '=', ' '].as_slice());
            append_chars(&mut r, usize_to_decimal(self.binding).as_slice());
            append_chars(&mut r, vec![')', ' '].as_slice());
            append_chars(&mut r, str_chars(self.scope_type.struct_name()).as_slice());
            append_chars(&mut r, vec![' ', '{', '\n'].as_slice());
            append_chars(&mut r, self.uniforms_text().as_slice());
            append_chars(&mut r, vec!['}', ' '].as_slice());
            append_chars(&mut r, str_chars(self.scope_type.struct_typedef()).as_slice());
            append_chars(&mut r, vec![';', '\n'].as_slice());
        }
        r
    }
}

/// Model of a `ShaderInfo`.
pub struct ShaderInfoView {
    pub is_used: bool,
    pub body: Seq<char>,
}

/// The code collected for one shader stage.
#[derive(Debug)]
pub struct ShaderInfo {
    pub is_used: bool,
    pub body: Vec<char>,
}

impl View for ShaderInfo {
    type V = ShaderInfoView;

    open spec fn view(&self) -> ShaderInfoView {
        ShaderInfoView { is_used: self.is_used, body: self.body@ }
    }
}

impl Default for ShaderInfo {
    fn default() -> (r: ShaderInfo)
        ensures
            r@ == (ShaderInfoView { is_used: false, body: Seq::empty() }),
    {
        ShaderInfo { is_used: false, body: Vec::new() }
    }
}

impl ShaderInfo {
    /// The stage's code (`Display`).
    pub fn to_text(&self) -> (r: Vec<char>)
        ensures
            r@ == self.body@,
    {
        copy_range(self.body.as_slice(), 0, self.body.len())
    }
}

} // verus!

verus! {

pub open spec fn is_scope_marker(l: HellLineView) -> bool {
    match l {
        HellLineView::Instruction(HellInstruction::DefineScope(_)) => true,
        _ => false,
    }
}

pub open spec fn is_shader_marker(l: HellLineView) -> bool {
    match l {
        HellLineView::Instruction(HellInstruction::DefineShader(_)) => true,
        _ => false,
    }
}

/// The first line at or after `from` that defines a scope (`lines.len()` if none).
pub open spec fn next_scope_marker(lines: Seq<HellLineView>, from: nat) -> nat
    decreases lines.len() - from,
{
    if from >= lines.len() {
        lines.len()
    } else if is_scope_marker(lines[from as int]) {
        from
    } else {
        next_scope_marker(lines, from + 1)
    }
}

/// The first line at or after `from` that defines a shader (`lines.len()` if none).
pub open spec fn next_shader_marker(lines: Seq<HellLineView>, from: nat) -> nat
    decreases lines.len() - from,
{
    if from >= lines.len() {
        lines.len()
    } else if is_shader_marker(lines[from as int]) {
        from
    } else {
        next_shader_marker(lines, from + 1)
    }
}

/// The uniform declarations among `lines[from..to]`, in order.
pub open spec fn decls_between(lines: Seq<HellLineView>, from: int, to: int) -> Seq<
    (GlslType, Seq<char>),
>
    decreases to - from,
{
    if to <= from {
        Seq::empty()
    } else {
        decls_between(lines, from, to - 1) + match lines[to - 1] {
            HellLineView::UniformDeclaration(d) => seq![d],
            _ => Seq::empty(),
        }
    }
}

/// The declarations of a stretch of lines are those of its first part
/// followed by those of the rest.
pub proof fn lemma_decls_between_split(lines: Seq<HellLineView>, from: int, mid: int, to: int)
    requires
        from <= mid <= to,
    ensures
        decls_between(lines, from, to) == decls_between(lines, from, mid) + decls_between(lines, mid, to),
    decreases to - mid,
{
    if to == mid {
        assert(decls_between(lines, from, to) + Seq::empty() =~= decls_between(lines, from, to));
    } else {
        lemma_decls_between_split(lines, from, mid, to - 1);
        assert(decls_between(lines, from, to) =~= decls_between(lines, from, mid) + decls_between(lines, mid, to));
    }
}

/// One line gives its declaration, whatever its GLSL type (samplers
/// included), and any other line gives none.
pub proof fn lemma_decls_between_line(lines: Seq<HellLineView>, k: int)
    requires
        0 <= k < lines.len(),
    ensures
        forall|d: (GlslType, Seq<char>)|
            lines[k] == HellLineView::UniformDeclaration(d) ==> #[trigger] decls_between(lines, k, k + 1) == seq![d],
        !(lines[k] is UniformDeclaration) ==> decls_between(lines, k, k + 1).len() == 0,
{
    assert(decls_between(lines, k, k) == Seq::<(GlslType, Seq<char>)>::empty());
    assert forall|d: (GlslType, Seq<char>)|
        lines[k] == HellLineView::UniformDeclaration(d) implies #[trigger] decls_between(lines, k, k + 1) == seq![d] by {
        assert(Seq::<(GlslType, Seq<char>)>::empty() + seq![d] =~= seq![d]);
    }
}

/// A block's declarations, in order, are the declaration lines among its
/// lines: one for each such line, so their number is the number of
/// declaration lines.
pub proof fn lemma_decls_between_are_declaration_lines(lines: Seq<HellLineView>, from: int, to: int)
    requires
        0 <= from <= to <= lines.len(),
    ensures
        decls_between(lines, from, to) == lines.subrange(from, to).filter_map(
            |l: HellLineView|
                match l {
                    HellLineView::UniformDeclaration(d) => Some(d),
                    _ => None,
                },
        ),
    decreases to - from,
{
    let f = |l: HellLineView|
        match l {
            HellLineView::UniformDeclaration(d) => Some(d),
            _ => None,
        };
    if from < to {
        lemma_decls_between_are_declaration_lines(lines, from, to - 1);
        assert(lines.subrange(from, to).drop_last() =~= lines.subrange(from, to - 1));
        assert(lines.subrange(from, to).last() == lines[to - 1]);
    } else {
        assert(lines.subrange(from, to).len() == 0);
    }
}

/// The plain-text lines among `lines[from..to]`, each followed by a newline.
pub open spec fn texts_between(lines: Seq<HellLineView>, from: int, to: int) -> Seq<char>
    decreases to - from,
{
    if to <= from {
        Seq::empty()
    } else {
        texts_between(lines, from, to - 1) + match lines[to - 1] {
            HellLineView::PlainText(t) => t.push('\n'),
            _ => Seq::empty(),
        }
    }
}

/// The text of a stretch of lines is that of its first part followed by that
/// of the rest.
pub proof fn lemma_texts_between_split(lines: Seq<HellLineView>, from: int, mid: int, to: int)
    requires
        from <= mid <= to,
    ensures
        texts_between(lines, from, to) == texts_between(lines, from, mid) + texts_between(lines, mid, to),
    decreases to - mid,
{
    if to == mid {
        assert(texts_between(lines, from, to) + Seq::empty() =~= texts_between(lines, from, to));
    } else {
        lemma_texts_between_split(lines, from, mid, to - 1);
        assert(texts_between(lines, from, to) =~= texts_between(lines, from, mid) + texts_between(lines, mid, to));
    }
}

/// One plain-text line gives its text and a newline; any other line gives
/// nothing.
pub proof fn lemma_texts_between_line(lines: Seq<HellLineView>, k: int)
    requires
        0 <= k < lines.len(),
    ensures
        forall|t: Seq<char>|
            lines[k] == HellLineView::PlainText(t) ==> #[trigger] texts_between(lines, k, k + 1) == t + seq!['\n'],
        !(lines[k] is PlainText) ==> texts_between(lines, k, k + 1).len() == 0,
{
    assert(texts_between(lines, k, k) == Seq::<char>::empty());
    assert forall|t: Seq<char>| lines[k] == HellLineView::PlainText(t) implies #[trigger] texts_between(lines, k, k + 1)
        == t + seq!['\n'] by {
        assert(Seq::<char>::empty() + t.push('\n') =~= t + seq!['\n']);
    }
}

/// Where reading resumes after a block that ends at marker `e`: past the
/// marker, or at the end when there is none.
pub open spec fn resume_after(lines: Seq<HellLineView>, pos: nat, e: nat) -> nat {
    if pos < e && e < lines.len() {
        e + 1
    } else {
        lines.len()
    }
}

/// What processing `lines` from `pos` on does to the scopes and shaders:
/// a scope definition marks its scope used and collects the declarations up to
/// the next scope definition (which closes the block and is consumed); a
/// shader definition collects the plain text up to the next shader definition;
/// every other line is skipped.
pub open spec fn process_from(
    lines: Seq<HellLineView>,
    pos: nat,
    scopes: Seq<ScopeInfoView>,
    shaders: Seq<ShaderInfoView>,
) -> (Seq<ScopeInfoView>, Seq<ShaderInfoView>)
    decreases lines.len() - pos,
{
    if pos >= lines.len() {
        (scopes, shaders)
    } else {
        match lines[pos as int] {
            HellLineView::Instruction(HellInstruction::DefineScope(s)) => {
                let e = next_scope_marker(lines, pos + 1);
                let i = scope_index(s);
                let sc = scopes[i];
                let sc2 = ScopeInfoView {
                    is_used: true,
                    uniforms: sc.uniforms + decls_between(lines, (pos + 1) as int, e as int),
                    ..sc
                };
                process_from(lines, resume_after(lines, pos, e), scopes.update(i, sc2), shaders)
            },
            HellLineView::Instruction(HellInstruction::DefineShader(t)) => {
                let e = next_shader_marker(lines, pos + 1);
                let i = shader_type_index(t);
                let sh = shaders[i];
                let sh2 = ShaderInfoView {
                    body: sh.body + texts_between(lines, (pos + 1) as int, e as int),
                    ..sh
                };
                process_from(lines, resume_after(lines, pos, e), scopes, shaders.update(i, sh2))
            },
            _ => process_from(lines, pos + 1, scopes, shaders),
        }
    }
}

/// Number of used scopes among the first `n`.
pub open spec fn used_before(scopes: Seq<ScopeInfoView>, n: int) -> nat
    decreases n,
{
    if n <= 0 {
        0
    } else {
        used_before(scopes, n - 1) + if scopes[n - 1].is_used {
            1nat
        } else {
            0nat
        }
    }
}

/// The scope table after `finalize`: used scopes get consecutive set indices
/// in table order; unused ones are left as they were.
pub open spec fn finalized_scopes(scopes: Seq<ScopeInfoView>) -> Seq<ScopeInfoView> {
    Seq::new(
        scopes.len(),
        |i: int|
            if scopes[i].is_used {
                ScopeInfoView { set: used_before(scopes, i) as usize, ..scopes[i] }
            } else {
                scopes[i]
            },
    )
}

proof fn lemma_used_before_mono(scopes: Seq<ScopeInfoView>, a: int, b: int)
    requires
        0 <= a <= b <= scopes.len(),
    ensures
        used_before(scopes, a) + (if a < b && scopes[a].is_used {
            1int
        } else {
            0int
        }) <= used_before(scopes, b),
        used_before(scopes, b) <= b,
    decreases b,
{
    if b > 0 {
        if a < b {
            lemma_used_before_mono(scopes, a, b - 1);
        } else {
            lemma_used_before_mono(scopes, a - 1, b - 1);
        }
    }
}

/// After `finalize`, the used scopes carry the set indices 0, 1, 2, ... in
/// table order: an earlier used scope has a smaller index, and every index
/// is below the number of used scopes.
pub proof fn lemma_finalized_sets_ordered(scopes: Seq<ScopeInfoView>, i: int, j: int)
    requires
        0 <= i < j < scopes.len(),
        scopes.len() <= usize::MAX,
        scopes[i].is_used,
        scopes[j].is_used,
    ensures
        finalized_scopes(scopes)[i].set < finalized_scopes(scopes)[j].set,
        finalized_scopes(scopes)[j].set < used_before(scopes, scopes.len() as int),
        finalized_scopes(scopes)[i].set == used_before(scopes, i),
{
    lemma_used_before_mono(scopes, i, j);
    lemma_used_before_mono(scopes, j, scopes.len() as int);
}

/// Reads a shader description line by line and collects its scopes and stages.
pub struct ShaderParser {
    lines: Vec<HellLine>,
    pos: usize,
    scopes: Vec<ScopeInfo>,
    shaders: Vec<ShaderInfo>,
}

pub open spec fn lines_view(v: Seq<HellLine>) -> Seq<HellLineView> {
    v.map_values(|l: HellLine| l@)
}

pub open spec fn scopes_view(v: Seq<ScopeInfo>) -> Seq<ScopeInfoView> {
    v.map_values(|s: ScopeInfo| s@)
}

pub open spec fn shaders_view(v: Seq<ShaderInfo>) -> Seq<ShaderInfoView> {
    v.map_values(|s: ShaderInfo| s@)
}

/// The scope table is indexed by scope, the stage table by stage.
pub open spec fn tables_wf(scopes: Seq<ScopeInfoView>, shaders: Seq<ShaderInfoView>) -> bool {
    &&& scopes.len() == 4
    &&& shaders.len() == 2
    &&& forall|i: int| 0 <= i < 4 ==> scope_index(#[trigger] scopes[i].scope_type) == i
}

impl ShaderParser {
    pub closed spec fn lines(&self) -> Seq<HellLineView> {
        lines_view(self.lines@)
    }

    pub closed spec fn pos(&self) -> nat {
        self.pos as nat
    }

    pub closed spec fn scopes(&self) -> Seq<ScopeInfoView> {
        scopes_view(self.scopes@)
    }

    pub closed spec fn shaders(&self) -> Seq<ShaderInfoView> {
        shaders_view(self.shaders@)
    }

    pub open spec fn wf(&self) -> bool {
        &&& self.pos() <= self.lines().len()
        &&& tables_wf(self.scopes(), self.shaders())
    }

    /// A parser over `raw`: its lines classified, nothing processed yet.
    pub fn new(raw: &str) -> (r: ShaderParser)
        ensures
            r.wf(),
            r.lines() == lines_seq(raw@).map_values(|l: Seq<char>| line_from_seq(l)),
            r.pos() == 0,
            r.scopes() == Seq::new(4, |i: int| fresh_scope(scope_of_index(i))),
            r.shaders() == Seq::new(2, |i: int| ShaderInfoView { is_used: false, body: Seq::empty() }),
    {
        let chars = str_chars(raw);
        let raw_lines = lines(chars.as_slice());
        let mut parsed: Vec<HellLine> = Vec::new();
        let mut i: usize = 0;
        while i < raw_lines.len()
            invariant
                i <= raw_lines@.len(),
                raw_lines@.map_values(|l: Vec<char>| l@) == lines_seq(raw@),
                lines_view(parsed@) == lines_seq(raw@).take(i as int).map_values(
                    |l: Seq<char>| line_from_seq(l),
                ),
            decreases raw_lines@.len() - i,
        {
            let l = HellLine::parce_line(raw_lines[i].as_slice());
            let ghost old_parsed = lines_view(parsed@);
            assert(raw_lines@.map_values(|l: Vec<char>| l@)[i as int] == raw_lines@[i as int]@);
            assert(lines_seq(raw@).take(i + 1).map_values(|l: Seq<char>| line_from_seq(l))
                =~= old_parsed.push(l@));
            parsed.push(l);
            assert(lines_view(parsed@) =~= old_parsed.push(l@));
            i = i + 1;
            assert(lines_view(parsed@) =~= lines_seq(raw@).take(i as int).map_values(
                |l: Seq<char>| line_from_seq(l),
            ));
        }
        assert(lines_seq(raw@).take(i as int) =~= lines_seq(raw@));
        let mut scopes: Vec<ScopeInfo> = Vec::new();
        let mut k: usize = 0;
        while k < 4
            invariant
                k <= 4,
                scopes_view(scopes@) == Seq::new(k as nat, |i: int| fresh_scope(scope_of_index(i))),
            decreases 4 - k,
        {
            let t = match ShaderScopeType::from_usize(k) {
                Some(t) => t,
                None => ShaderScopeType::Global,
            };
            assert(t == scope_of_index(k as int));
            let ghost old_scopes = scopes_view(scopes@);
            let sc = ScopeInfo::new(t);
            scopes.push(sc);
            assert(scopes_view(scopes@) =~= old_scopes.push(sc@));
            k = k + 1;
            assert(scopes_view(scopes@) =~= Seq::new(k as nat, |i: int| fresh_scope(scope_of_index(i))));
        }
        let mut shaders: Vec<ShaderInfo> = Vec::new();
        shaders.push(ShaderInfo::default());
        shaders.push(ShaderInfo::default());
        let r = ShaderParser { lines: parsed, pos: 0, scopes, shaders };
        assert(r.shaders() =~= Seq::new(2, |i: int| ShaderInfoView { is_used: false, body: Seq::empty() }));
        r
    }
}

/// The scope at table position `i`.
pub open spec fn scope_of_index(i: int) -> ShaderScopeType {
    if i == 0 {
        ShaderScopeType::Global
    } else if i == 1 {
        ShaderScopeType::Shared
    } else if i == 2 {
        ShaderScopeType::Instance
    } else {
        ShaderScopeType::Local
    }
}

} // verus!

verus! {

/// A scope block ends at the first scope definition at or after its start
/// (or at the end of the lines): no line before that defines a scope.
pub proof fn lemma_next_scope_marker(lines: Seq<HellLineView>, from: nat)
    requires
        from <= lines.len(),
    ensures
        from <= next_scope_marker(lines, from) <= lines.len(),
        next_scope_marker(lines, from) < lines.len() ==> is_scope_marker(
            lines[next_scope_marker(lines, from) as int],
        ),
        forall|k: int| from <= k < next_scope_marker(lines, from) ==> !is_scope_marker(#[trigger] lines[k]),
    decreases lines.len() - from,
{
    if from < lines.len() && !is_scope_marker(lines[from as int]) {
        lemma_next_scope_marker(lines, from + 1);
    }
}

/// A shader block ends at the first shader definition at or after its start
/// (or at the end of the lines): no line before that defines a shader.
pub proof fn lemma_next_shader_marker(lines: Seq<HellLineView>, from: nat)
    requires
        from <= lines.len(),
    ensures
        from <= next_shader_marker(lines, from) <= lines.len(),
        next_shader_marker(lines, from) < lines.len() ==> is_shader_marker(
            lines[next_shader_marker(lines, from) as int],
        ),
        forall|k: int| from <= k < next_shader_marker(lines, from) ==> !is_shader_marker(#[trigger] lines[k]),
    decreases lines.len() - from,
{
    if from < lines.len() && !is_shader_marker(lines[from as int]) {
        lemma_next_shader_marker(lines, from + 1);
    }
}

/// The text written for one shader stage: the block of every used scope, each
/// followed by an empty line, then the block of the scope at the stage's table
/// position and a newline.
pub open spec fn used_scopes_text(scopes: Seq<ScopeInfoView>, n: int) -> Seq<char>
    decreases n,
{
    if n <= 0 {
        Seq::empty()
    } else {
        used_scopes_text(scopes, n - 1) + if scopes[n - 1].is_used {
            scope_text(scopes[n - 1]).push('\n')
        } else {
            Seq::empty()
        }
    }
}

/// The stage text's scope part grows by one scope at a time: the blocks of
/// the used scopes among the first `n + 1` are those among the first `n`,
/// then the block of scope `n` and an empty line if that scope is used.
pub proof fn lemma_used_scopes_text_next(scopes: Seq<ScopeInfoView>, n: int)
    requires
        0 <= n,
    ensures
        scopes[n].is_used ==> used_scopes_text(scopes, n + 1) == used_scopes_text(scopes, n) + scope_text(scopes[n])
            + seq!['\n'],
        !scopes[n].is_used ==> used_scopes_text(scopes, n + 1) == used_scopes_text(scopes, n),
{
    assert(used_scopes_text(scopes, n) + scope_text(scopes[n]).push('\n') =~= used_scopes_text(scopes, n)
        + scope_text(scopes[n]) + seq!['\n']);
    assert(used_scopes_text(scopes, n) + Seq::<char>::empty() =~= used_scopes_text(scopes, n));
}

/// A table whose scopes are all unused gives no scope blocks.
pub proof fn lemma_used_scopes_text_none_used(scopes: Seq<ScopeInfoView>, n: int)
    requires
        n <= scopes.len(),
        forall|i: int| 0 <= i < n ==> !(#[trigger] scopes[i].is_used),
    ensures
        used_scopes_text(scopes, n).len() == 0,
    decreases n,
{
    if n > 0 {
        lemma_used_scopes_text_none_used(scopes, n - 1);
    }
}

pub open spec fn shader_file_text(scopes: Seq<ScopeInfoView>, shader_type: ShaderType) -> Seq<char> {
    used_scopes_text(scopes, scopes.len() as int) + scope_text(
        scopes[shader_type_index(shader_type)],
    ).push('\n')
}

impl ShaderParser {
    fn instruction_at(&self, p: usize) -> (r: Option<HellInstruction>)
        requires
            p < self.lines@.len(),
        ensures
            match self.lines()[p as int] {
                HellLineView::Instruction(i) => r == Some(i),
                _ => r is None,
            },
    {
        match &self.lines[p] {
            HellLine::Instruction(i) => Some(*i),
            _ => None,
        }
    }

    fn scope_marker_at(&self, p: usize) -> (r: bool)
        requires
            p < self.lines@.len(),
        ensures
            r == is_scope_marker(self.lines()[p as int]),
    {
        match &self.lines[p] {
            HellLine::Instruction(HellInstruction::DefineScope(_)) => true,
            _ => false,
        }
    }

    fn shader_marker_at(&self, p: usize) -> (r: bool)
        requires
            p < self.lines@.len(),
        ensures
            r == is_shader_marker(self.lines()[p as int]),
    {
        match &self.lines[p] {
            HellLine::Instruction(HellInstruction::DefineShader(_)) => true,
            _ => false,
        }
    }

    /// Collects the declarations of a scope block (the `#hell scope` line is
    /// already consumed) up to and including the next scope definition.
    fn process_define_scope(&mut self, scope: ShaderScopeType)
        requires
            old(self).wf(),
        ensures
            final(self).wf(),
            final(self).lines() == old(self).lines(),
            final(self).shaders() == old(self).shaders(),
            ({
                let l = old(self).lines();
                let e = next_scope_marker(l, old(self).pos());
                let i = scope_index(scope);
                let sc = old(self).scopes()[i];
                &&& final(self).pos() == if e < l.len() {
                    e + 1
                } else {
                    l.len()
                }
                &&& final(self).scopes() == old(self).scopes().update(
                    i,
                    ScopeInfoView {
                        is_used: true,
                        uniforms: sc.uniforms + decls_between(l, old(self).pos() as int, e as int),
                        ..sc
                    },
                )
            }),
    {
        let ghost l = self.lines();
        let ghost p0 = self.pos as nat;
        let mut added: Vec<GlslVarDeclaration> = Vec::new();
        while self.pos < self.lines.len() && !self.scope_marker_at(self.pos)
            invariant
                self.wf(),
                self.lines() == l,
                self.scopes() == old(self).scopes(),
                self.shaders() == old(self).shaders(),
                p0 <= self.pos <= l.len(),
                next_scope_marker(l, p0) == next_scope_marker(l, self.pos as nat),
                decls_view(added@) == decls_between(l, p0 as int, self.pos as int),
            decreases self.lines@.len() - self.pos,
        {
            let p = self.pos;
            let ghost before = decls_view(added@);
            assert(lines_view(self.lines@)[p as int] == self.lines@[p as int]@);
            if let HellLine::UniformDeclaration(d) = &self.lines[p] {
                let d2 = d.duplicate();
                added.push(d2);
                assert(decls_view(added@) =~= before.push(d2@));
            } else {
                assert(decls_view(added@) =~= before);
            }
            self.pos = p + 1;
            assert(decls_between(l, p0 as int, self.pos as int) =~= decls_view(added@));
        }
        proof {
            lemma_next_scope_marker(l, self.pos as nat);
        }
        if self.pos < self.lines.len() {
            self.pos = self.pos + 1;
        }
        let idx = scope.index();
        let ghost s0 = self.scopes();
        let mut sc = self.scopes.remove(idx);
        sc.is_used = true;
        let ghost u0 = decls_view(sc.uniforms@);
        let ghost a0 = decls_view(added@);
        sc.uniforms.append(&mut added);
        assert(decls_view(sc.uniforms@) =~= u0 + a0);
        self.scopes.insert(idx, sc);
        assert(self.scopes() =~= s0.update(idx as int, sc@));
    }

    /// Collects the code of a shader block (the `#hell shader` line is already
    /// consumed) up to and including the next shader definition.
    fn process_define_shader(&mut self, shader_type: ShaderType)
        requires
            old(self).wf(),
        ensures
            final(self).wf(),
            final(self).lines() == old(self).lines(),
            final(self).scopes() == old(self).scopes(),
            ({
                let l = old(self).lines();
                let e = next_shader_marker(l, old(self).pos());
                let i = shader_type_index(shader_type);
                let sh = old(self).shaders()[i];
                &&& final(self).pos() == if e < l.len() {
                    e + 1
                } else {
                    l.len()
                }
                &&& final(self).shaders() == old(self).shaders().update(
                    i,
                    ShaderInfoView {
                        body: sh.body + texts_between(l, old(self).pos() as int, e as int),
                        ..sh
                    },
                )
            }),
    {
        let ghost l = self.lines();
        let ghost p0 = self.pos as nat;
        let mut added: Vec<char> = Vec::new();
        while self.pos < self.lines.len() && !self.shader_marker_at(self.pos)
            invariant
                self.wf(),
                self.lines() == l,
                self.scopes() == old(self).scopes(),
                self.shaders() == old(self).shaders(),
                p0 <= self.pos <= l.len(),
                next_shader_marker(l, p0) == next_shader_marker(l, self.pos as nat),
                added@ == texts_between(l, p0 as int, self.pos as int),
            decreases self.lines@.len() - self.pos,
        {
            let p = self.pos;
            let ghost before = added@;
            assert(lines_view(self.lines@)[p as int] == self.lines@[p as int]@);
            if let HellLine::PlainText(t) = &self.lines[p] {
                append_chars(&mut added, t.as_slice());
                added.push('\n');
                assert(added@ =~= before + t@.push('\n'));
            } else {
                assert(added@ =~= before + Seq::<char>::empty());
            }
            self.pos = p + 1;
        }
        proof {
            lemma_next_shader_marker(l, self.pos as nat);
        }
        if self.pos < self.lines.len() {
            self.pos = self.pos + 1;
        }
        let idx = shader_type.index();
        let ghost s0 = self.shaders();
        let mut sh = self.shaders.remove(idx);
        append_chars(&mut sh.body, added.as_slice());
        self.shaders.insert(idx, sh);
        assert(self.shaders() =~= s0.update(idx as int, sh@));
    }

    /// Processes every remaining line.
    pub fn process(&mut self) -> (r: HellResult<()>)
        requires
            old(self).wf(),
        ensures
            r is Ok,
            final(self).wf(),
            final(self).lines() == old(self).lines(),
            final(self).pos() == final(self).lines().len(),
            (final(self).scopes(), final(self).shaders()) == process_from(
                old(self).lines(),
                old(self).pos(),
                old(self).scopes(),
                old(self).shaders(),
            ),
    {
        let ghost l = self.lines();
        while self.pos < self.lines.len()
            invariant
                self.wf(),
                self.lines() == l,
                process_from(l, old(self).pos(), old(self).scopes(), old(self).shaders())
                    == process_from(l, self.pos(), self.scopes(), self.shaders()),
            decreases self.lines@.len() - self.pos,
        {
            let p = self.pos;
            let instr = self.instruction_at(p);
            self.pos = p + 1;
            proof {
                lemma_next_scope_marker(l, (p + 1) as nat);
                lemma_next_shader_marker(l, (p + 1) as nat);
            }
            match instr {
                Some(HellInstruction::DefineScope(s)) => {
                    self.process_define_scope(s);
                },
                Some(HellInstruction::DefineShader(t)) => {
                    self.process_define_shader(t);
                },
                _ => {},
            }
        }
        Ok(())
    }

    /// Gives the used scopes consecutive descriptor-set indices, in table order.
    pub fn finalize(&mut self)
        requires
            old(self).wf(),
        ensures
            final(self).wf(),
            final(self).lines() == old(self).lines(),
            final(self).pos() == old(self).pos(),
            final(self).shaders() == old(self).shaders(),
            final(self).scopes() == finalized_scopes(old(self).scopes()),
    {
        let ghost s0 = self.scopes();
        let mut scope_idx: usize = 0;
        let mut i: usize = 0;
        while i < self.scopes.len()
            invariant
                self.wf(),
                self.lines() == old(self).lines(),
                self.pos() == old(self).pos(),
                self.shaders() == old(self).shaders(),
                i <= 4,
                s0.len() == 4,
                scope_idx == used_before(s0, i as int),
                scope_idx <= i,
                forall|j: int| 0 <= j < 4 ==> #[trigger] self.scopes()[j] == if j < i {
                    finalized_scopes(s0)[j]
                } else {
                    s0[j]
                },
            decreases 4 - i,
        {
            assert(self.scopes()[i as int] == self.scopes@[i as int]@);
            if self.scopes[i].is_used {
                let ghost before = self.scopes();
                let mut sc = self.scopes.remove(i);
                sc.finalize(scope_idx);
                self.scopes.insert(i, sc);
                assert(self.scopes() =~= before.update(i as int, sc@));
                scope_idx = scope_idx + 1;
            }
            i = i + 1;
        }
        assert(self.scopes() =~= finalized_scopes(s0));
    }

    /// The text of the file written for `shader_type`: every used scope's block,
    /// then the block of the scope in the stage's table slot.
    pub fn write_shader(&self, shader_type: ShaderType) -> (r: String)
        requires
            self.wf(),
        ensures
            r@ == shader_file_text(self.scopes(), shader_type),
    {
        let mut buff: Vec<char> = Vec::new();
        let mut i: usize = 0;
        while i < self.scopes.len()
            invariant
                self.wf(),
                i <= 4,
                buff@ == used_scopes_text(self.scopes(), i as int),
            decreases 4 - i,
        {
            assert(self.scopes()[i as int] == self.scopes@[i as int]@);
            if self.scopes[i].is_used {
                let t = self.scopes[i].to_text();
                append_chars(&mut buff, t.as_slice());
                buff.push('\n');
            }
            i = i + 1;
        }
        let idx = shader_type.index();
        assert(self.scopes()[idx as int] == self.scopes@[idx as int]@);
        let t = self.scopes[idx].to_text();
        append_chars(&mut buff, t.as_slice());
        buff.push('\n');
        chars_to_string(buff.as_slice())
    }
}

/// A keyword of the description format.
#[derive(Debug, Clone, Copy, PartialEq, Eq, Structural)]
pub enum ShaderKeyword {
    GlslLayout,
}

} // verus!
