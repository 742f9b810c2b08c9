//! What the `UniformSet` derive decides for each field of a uniform struct: whether the
//! field is a texture, the GLSL `uniform` declaration it binds to, and which fields
//! take part. Field types are read by the shape the derive looks at: a path's last
//! segment and that segment's type arguments.

use vstd::prelude::*;
use crate::shader_source::{chars_of, push_all, vec_char_eq};

verus! {

/// A field's type as the derive reads it.
pub enum TypeShape {
    /// A path type: the name of its last segment and that segment's angle-bracketed
    /// arguments.
    Path { last: Vec<char>, args: Vec<ArgShape> },
    /// Any other type (reference, tuple, array, ...).
    Other,
}

/// One angle-bracketed argument of a path segment.
pub enum ArgShape {
    /// A type argument.
    Type(TypeShape),
    /// A lifetime, constant or binding argument.
    Other,
}

/// One named field of a uniform struct, with the attributes the derive reads.
pub struct UniformField {
    /// The field's name, which is also the uniform's name.
    pub name: Vec<char>,
    /// The field's type.
    pub ty: TypeShape,
    /// Marked `#[exclude]`: not a uniform.
    pub excluded: bool,
    /// The string of `#[base_type("...")]`: the GLSL type to declare.
    pub base_type: Option<Vec<char>>,
    /// The string of `#[array_max("...")]`: the array size of a `Vec` field.
    pub array_max: Option<Vec<char>>,
}

/// Why a field has no GLSL declaration.
#[derive(PartialEq, Eq, Structural, Clone, Copy, Debug)]
pub enum BindingError {
    /// The type is not a path, or its base type has no GLSL counterpart.
    UnrecognizedType,
    /// A `Vec` field without `#[array_max]`.
    MissingArrayMax,
}

/// Whether the type is a path whose last segment is named `name`.
pub open spec fn spec_last_is(ty: TypeShape, name: Seq<char>) -> bool {
    match ty {
        TypeShape::Path { last, .. } => last@ == name,
        TypeShape::Other => false,
    }
}

/// `glow::Texture` (a GL texture name), by its last segment.
pub open spec fn spec_is_glow_texture(ty: TypeShape) -> bool {
    spec_last_is(ty, "Texture"@)
}

/// `TextureRef`, by its last segment.
pub open spec fn spec_is_texture_ref(ty: TypeShape) -> bool {
    spec_last_is(ty, "TextureRef"@)
}

/// `Handle<..>` with some type argument whose last segment is `Image`.
pub open spec fn spec_is_handle_image(ty: TypeShape) -> bool {
    match ty {
        TypeShape::Path { last, args } => last@ == "Handle"@ && exists|i: int|
            0 <= i < args@.len() && (#[trigger] args@[i] matches ArgShape::Type(t) && spec_last_is(
                t,
                "Image"@,
            )),
        TypeShape::Other => false,
    }
}

/// `Option<..>` with some type argument that is a `Handle<Image>`.
pub open spec fn spec_is_option_handle_image(ty: TypeShape) -> bool {
    match ty {
        TypeShape::Path { last, args } => last@ == "Option"@ && exists|i: int|
            0 <= i < args@.len() && (#[trigger] args@[i] matches ArgShape::Type(t)
                && spec_is_handle_image(t)),
        TypeShape::Other => false,
    }
}

/// Whether a field of this type binds a texture.
pub open spec fn spec_is_texture(ty: TypeShape) -> bool {
    spec_is_glow_texture(ty) || spec_is_texture_ref(ty) || spec_is_handle_image(ty)
        || spec_is_option_handle_image(ty)
}

/// For `Vec<T>` with a path `T`: the last segment of `T`.
pub open spec fn spec_vec_of(ty: TypeShape) -> Option<Seq<char>> {
    match ty {
        TypeShape::Path { last, args } => if last@ == "Vec"@ && args@.len() > 0 {
            match args@[0] {
                ArgShape::Type(TypeShape::Path { last: inner, .. }) => Some(inner@),
                _ => None,
            }
        } else {
            None
        },
        TypeShape::Other => None,
    }
}

/// Whether the last segment of a path type is `name`.
fn last_is(ty: &TypeShape, name: &str) -> (r: bool)
    ensures
        r == spec_last_is(*ty, name@),
{
    match ty {
        TypeShape::Path { last, .. } => vec_char_eq(last, &chars_of(name)),
        TypeShape::Other => false,
    }
}

/// Whether the type is `glow::Texture`.
pub fn is_glow_texture(ty: &TypeShape) -> (r: bool)
    ensures
        r == spec_is_glow_texture(*ty),
{
    last_is(ty, "Texture")
}

/// Whether the type is `TextureRef`.
pub fn is_texture_ref(ty: &TypeShape) -> (r: bool)
    ensures
        r == spec_is_texture_ref(*ty),
{
    last_is(ty, "TextureRef")
}

/// Whether the type is `Handle<Image>`.
pub fn is_handle_image(ty: &TypeShape) -> (r: bool)
    ensures
        r == spec_is_handle_image(*ty),
{
    match ty {
        TypeShape::Path { last, args } => {
            if !vec_char_eq(last, &chars_of("Handle")) {
                return false;
            }
            let mut i: usize = 0;
            while i < args.len()
                invariant
                    i <= args@.len(),
                    *ty == (TypeShape::Path { last: *last, args: *args }),
                    last@ == "Handle"@,
                    forall|j: int|
                        0 <= j < i ==> !(#[trigger] args@[j] matches ArgShape::Type(t) && spec_last_is(
                            t,
                            "Image"@,
                        )),
                decreases args@.len() - i,
            {
                match &args[i] {
                    ArgShape::Type(t) => {
                        if last_is(t, "Image") {
                            assert(args@[i as int] matches ArgShape::Type(t) && spec_last_is(t, "Image"@));
                            return true;
                        }
                    },
                    ArgShape::Other => {},
                }
                i = i + 1;
            }
            false
        },
        TypeShape::Other => false,
    }
}

/// Whether the type is `Option<Handle<Image>>`.
pub fn is_option_handle_image(ty: &TypeShape) -> (r: bool)
    ensures
        r == spec_is_option_handle_image(*ty),
{
    match ty {
        TypeShape::Path { last, args } => {
            if !vec_char_eq(last, &chars_of("Option")) {
                return false;
            }
            let mut i: usize = 0;
            while i < args.len()
                invariant
                    i <= args@.len(),
                    *ty == (TypeShape::Path { last: *last, args: *args }),
                    last@ == "Option"@,
                    forall|j: int|
                        0 <= j < i ==> !(#[trigger] args@[j] matches ArgShape::Type(t)
                            && spec_is_handle_image(t)),
                decreases args@.len() - i,
            {
                match &args[i] {
                    ArgShape::Type(t) => {
                        if is_handle_image(t) {
                            assert(args@[i as int] matches ArgShape::Type(t) && spec_is_handle_image(t));
                            return true;
                        }
                    },
                    ArgShape::Other => {},
                }
                i = i + 1;
            }
            false
        },
        TypeShape::Other => false,
    }
}

/// Whether a field of this type binds a texture: a GL texture, a texture reference, a
/// `Handle<Image>` or an `Option<Handle<Image>>`.
pub fn is_texture(ty: &TypeShape) -> (r: bool)
    ensures
        r == spec_is_texture(*ty),
{
    let a = is_glow_texture(ty);
    let b = is_texture_ref(ty);
    let c = is_handle_image(ty);
    let d = is_option_handle_image(ty);
    a || b || c || d
}

/// The element type of a `Vec` field, by its last segment.
pub fn vec_of(ty: &TypeShape) -> (r: Option<Vec<char>>)
    ensures
        (match r {
            Some(v) => spec_vec_of(*ty) == Some(v@),
            None => spec_vec_of(*ty) is None,
        }),
{
    match ty {
        TypeShape::Path { last, args } => {
            if !vec_char_eq(last, &chars_of("Vec")) || args.len() == 0 {
                return None;
            }
            match &args[0] {
                ArgShape::Type(TypeShape::Path { last: inner, .. }) => Some(inner.clone()),
                _ => None,
            }
        },
        TypeShape::Other => None,
    }
}

/// The GLSL type of a Rust base type.
pub open spec fn spec_glsl_type_of(base: Seq<char>) -> Option<Seq<char>> {
    if base == "f32"@ {
        Some("float"@)
    } else if base == "Vec2"@ {
        Some("vec2"@)
    } else if base == "Vec3"@ {
        Some("vec3"@)
    } else if base == "Vec4"@ {
        Some("vec4"@)
    } else if base == "i32"@ {
        Some("int"@)
    } else if base == "IVec2"@ {
        Some("ivec2"@)
    } else if base == "IVec3"@ {
        Some("ivec3"@)
    } else if base == "IVec4"@ {
        Some("ivec4"@)
    } else if base == "Mat2"@ {
        Some("mat2"@)
    } else if base == "Mat3"@ {
        Some("mat3"@)
    } else if base == "Mat4"@ {
        Some("mat4"@)
    } else if base == "bool"@ {
        Some("bool"@)
    } else {
        None
    }
}

/// Vectors and matrices keep their shape: `VecN`, `IVecN` and `MatN` become `vecN`,
/// `ivecN` and `matN` for each size N from 2 to 4, and the scalars `f32`, `i32` and `bool`
/// become `float`, `int` and `bool`.
pub proof fn lemma_glsl_type_keeps_shape(n: char)
    requires
        '2' <= n <= '4',
    ensures
        spec_glsl_type_of(seq!['V', 'e', 'c', n]) == Some(seq!['v', 'e', 'c', n]),
        spec_glsl_type_of(seq!['I', 'V', 'e', 'c', n]) == Some(seq!['i', 'v', 'e', 'c', n]),
        spec_glsl_type_of(seq!['M', 'a', 't', n]) == Some(seq!['m', 'a', 't', n]),
        spec_glsl_type_of(seq!['f', '3', '2']) == Some(seq!['f', 'l', 'o', 'a', 't']),
        spec_glsl_type_of(seq!['i', '3', '2']) == Some(seq!['i', 'n', 't']),
        spec_glsl_type_of(seq!['b', 'o', 'o', 'l']) == Some(seq!['b', 'o', 'o', 'l']),
{
    reveal_strlit("f32");
    reveal_strlit("float");
    reveal_strlit("Vec2");
    reveal_strlit("vec2");
    reveal_strlit("Vec3");
    reveal_strlit("vec3");
    reveal_strlit("Vec4");
    reveal_strlit("vec4");
    reveal_strlit("i32");
    reveal_strlit("int");
    reveal_strlit("IVec2");
    reveal_strlit("ivec2");
    reveal_strlit("IVec3");
    reveal_strlit("ivec3");
    reveal_strlit("IVec4");
    reveal_strlit("ivec4");
    reveal_strlit("Mat2");
    reveal_strlit("mat2");
    reveal_strlit("Mat3");
    reveal_strlit("mat3");
    reveal_strlit("Mat4");
    reveal_strlit("mat4");
    reveal_strlit("bool");
    assert("f32"@ =~= seq!['f', '3', '2']);
    assert("float"@ =~= seq!['f', 'l', 'o', 'a', 't']);
    assert("i32"@ =~= seq!['i', '3', '2']);
    assert("int"@ =~= seq!['i', 'n', 't']);
    assert("bool"@ =~= seq!['b', 'o', 'o', 'l']);
    if n == '2' {
        assert("Vec2"@ =~= seq!['V', 'e', 'c', n]);
        assert("vec2"@ =~= seq!['v', 'e', 'c', n]);
        assert("IVec2"@ =~= seq!['I', 'V', 'e', 'c', n]);
        assert("ivec2"@ =~= seq!['i', 'v', 'e', 'c', n]);
        assert("Mat2"@ =~= seq!['M', 'a', 't', n]);
        assert("mat2"@ =~= seq!['m', 'a', 't', n]);
    } else if n == '3' {
        assert("Vec3"@ =~= seq!['V', 'e', 'c', n]);
        assert("vec3"@ =~= seq!['v', 'e', 'c', n]);
        assert("IVec3"@ =~= seq!['I', 'V', 'e', 'c', n]);
        assert("ivec3"@ =~= seq!['i', 'v', 'e', 'c', n]);
        assert("Mat3"@ =~= seq!['M', 'a', 't', n]);
        assert("mat3"@ =~= seq!['m', 'a', 't', n]);
    } else {
        assert("Vec4"@ =~= seq!['V', 'e', 'c', n]);
        assert("vec4"@ =~= seq!['v', 'e', 'c', n]);
        assert("IVec4"@ =~= seq!['I', 'V', 'e', 'c', n]);
        assert("ivec4"@ =~= seq!['i', 'v', 'e', 'c', n]);
        assert("Mat4"@ =~= seq!['M', 'a', 't', n]);
        assert("mat4"@ =~= seq!['m', 'a', 't', n]);
    }
}

/// The GLSL type of a Rust base type, `None` for a type without one.
pub fn glsl_type_of(base: &Vec<char>) -> (r: Option<Vec<char>>)
    ensures
        (match r {
            Some(t) => spec_glsl_type_of(base@) == Some(t@),
            None => spec_glsl_type_of(base@) is None,
        }),
{
    if vec_char_eq(base, &chars_of("f32")) {
        Some(chars_of("float"))
    } else if vec_char_eq(base, &chars_of("Vec2")) {
        Some(chars_of("vec2"))
    } else if vec_char_eq(base, &chars_of("Vec3")) {
        Some(chars_of("vec3"))
    } else if vec_char_eq(base, &chars_of("Vec4")) {
        Some(chars_of("vec4"))
    } else if vec_char_eq(base, &chars_of("i32")) {
        Some(chars_of("int"))
    } else if vec_char_eq(base, &chars_of("IVec2")) {
        Some(chars_of("ivec2"))
    } else if vec_char_eq(base, &chars_of("IVec3")) {
        Some(chars_of("ivec3"))
    } else if vec_char_eq(base, &chars_of("IVec4")) {
        Some(chars_of("ivec4"))
    } else if vec_char_eq(base, &chars_of("Mat2")) {
        Some(chars_of("mat2"))
    } else if vec_char_eq(base, &chars_of("Mat3")) {
        Some(chars_of("mat3"))
    } else if vec_char_eq(base, &chars_of("Mat4")) {
        Some(chars_of("mat4"))
    } else if vec_char_eq(base, &chars_of("bool")) {
        Some(chars_of("bool"))
    } else {
        None
    }
}

pub open spec fn spec_opt_chars(o: Option<Vec<char>>) -> Option<Seq<char>> {
    match o {
        Some(v) => Some(v@),
        None => None,
    }
}

/// The GLSL declaration of a field: `uniform TYPE NAME;`, or `uniform TYPE NAME[MAX];`
/// for a `Vec` field. The type is the `base_type` attribute if given, else `sampler2D`
/// for a texture, else the GLSL type of the element type (for a `Vec`) or of the type.
pub open spec fn spec_glsl_binding(
    name: Seq<char>,
    ty: TypeShape,
    base_type: Option<Seq<char>>,
    array_max: Option<Seq<char>>,
    texture: bool,
) -> Result<Seq<char>, BindingError> {
    match ty {
        TypeShape::Other => Err(BindingError::UnrecognizedType),
        TypeShape::Path { last, .. } => {
            let array_type = spec_vec_of(ty);
            let gl_ty = match base_type {
                Some(b) => Some(b),
                None => if texture {
                    Some("sampler2D"@)
                } else {
                    spec_glsl_type_of(
                        match array_type {
                            Some(a) => a,
                            None => last@,
                        },
                    )
                },
            };
            match gl_ty {
                None => Err(BindingError::UnrecognizedType),
                Some(t) => if array_type is Some {
                    match array_max {
                        Some(m) => Ok("uniform "@ + t + " "@ + name + "["@ + m + "]"@ + ";"@),
                        None => Err(BindingError::MissingArrayMax),
                    }
                } else {
                    Ok("uniform "@ + t + " "@ + name + ";"@)
                },
            }
        },
    }
}

pub open spec fn spec_field_binding(f: UniformField, texture: bool) -> Result<Seq<char>, BindingError> {
    spec_glsl_binding(f.name@, f.ty, spec_opt_chars(f.base_type), spec_opt_chars(f.array_max), texture)
}

pub open spec fn spec_chars_result(r: Result<Vec<char>, BindingError>) -> Result<Seq<char>, BindingError> {
    match r {
        Ok(v) => Ok(v@),
        Err(e) => Err(e),
    }
}

/// The GLSL declaration of a field (see `spec_glsl_binding`).
pub fn get_glsl_binding(field: &UniformField, texture: bool) -> (r: Result<Vec<char>, BindingError>)
    ensures
        spec_chars_result(r) == spec_field_binding(*field, texture),
{
    let last = match &field.ty {
        TypeShape::Path { last, .. } => last,
        TypeShape::Other => return Err(BindingError::UnrecognizedType),
    };
    let array_type = vec_of(&field.ty);
    let gl_ty = match &field.base_type {
        Some(b) => Some(b.clone()),
        None => if texture {
            Some(chars_of("sampler2D"))
        } else {
            match &array_type {
                Some(a) => glsl_type_of(a),
                None => glsl_type_of(last),
            }
        },
    };
    let t = match gl_ty {
        Some(t) => t,
        None => return Err(BindingError::UnrecognizedType),
    };
    let mut out = chars_of("uniform ");
    push_all(&mut out, &t);
    push_all(&mut out, &chars_of(" "));
    push_all(&mut out, &field.name);
    if array_type.is_some() {
        match &field.array_max {
            Some(m) => {
                push_all(&mut out, &chars_of("["));
                push_all(&mut out, m);
                push_all(&mut out, &chars_of("]"));
            },
            None => return Err(BindingError::MissingArrayMax),
        }
    }
    push_all(&mut out, &chars_of(";"));
    Ok(out)
}

/// One uniform of a uniform struct. Its position among the struct's uniforms is the
/// index its value is loaded by.
pub struct UniformBinding {
    /// The uniform's name.
    pub name: Vec<char>,
    /// Whether it binds a texture.
    pub is_texture: bool,
    /// Its GLSL declaration.
    pub declaration: Vec<char>,
}

pub open spec fn spec_binding_view(b: UniformBinding) -> (Seq<char>, bool, Seq<char>) {
    (b.name@, b.is_texture, b.declaration@)
}

/// The uniforms of the first `k` fields: every field not excluded, in order, with its
/// name, texture flag and declaration; the first field without a declaration gives its
/// error.
pub open spec fn spec_uniform_bindings(fields: Seq<UniformField>, k: nat) -> Result<
    Seq<(Seq<char>, bool, Seq<char>)>,
    BindingError,
>
    decreases k,
{
    if k == 0 {
        Ok(Seq::empty())
    } else {
        match spec_uniform_bindings(fields, (k - 1) as nat) {
            Err(e) => Err(e),
            Ok(prev) => {
                let f = fields[k - 1];
                if f.excluded {
                    Ok(prev)
                } else {
                    let texture = spec_is_texture(f.ty);
                    match spec_field_binding(f, texture) {
                        Ok(b) => Ok(prev.push((f.name@, texture, b))),
                        Err(e) => Err(e),
                    }
                }
            },
        }
    }
}

pub open spec fn spec_bindings_result(r: Result<Vec<UniformBinding>, BindingError>) -> Result<
    Seq<(Seq<char>, bool, Seq<char>)>,
    BindingError,
> {
    match r {
        Ok(v) => Ok(v@.map_values(|b: UniformBinding| spec_binding_view(b))),
        Err(e) => Err(e),
    }
}

proof fn lemma_bindings_stay_err(fields: Seq<UniformField>, i: nat, k: nat)
    requires
        i <= k,
        spec_uniform_bindings(fields, i) is Err,
    ensures
        spec_uniform_bindings(fields, k) == spec_uniform_bindings(fields, i),
    decreases k,
{
    if k > i {
        lemma_bindings_stay_err(fields, i, (k - 1) as nat);
    }
}

/// The uniforms a `UniformSet` derive declares for a struct's fields (see
/// `spec_uniform_bindings`).
pub fn uniform_set_bindings(fields: &Vec<UniformField>) -> (r: Result<Vec<UniformBinding>, BindingError>)
    ensures
        spec_bindings_result(r) == spec_uniform_bindings(fields@, fields@.len()),
{
    let mut out: Vec<UniformBinding> = Vec::new();
    let mut i: usize = 0;
    assert(out@.map_values(|b: UniformBinding| spec_binding_view(b)) =~= Seq::<(Seq<char>, bool, Seq<char>)>::empty());
    while i < fields.len()
        invariant
            i <= fields@.len(),
            spec_uniform_bindings(fields@, i as nat) == Ok::<
                Seq<(Seq<char>, bool, Seq<char>)>,
                BindingError,
            >(out@.map_values(|b: UniformBinding| spec_binding_view(b))),
        decreases fields@.len() - i,
    {
        let field = &fields[i];
        if !field.excluded {
            let texture = is_texture(&field.ty);
            match get_glsl_binding(field, texture) {
                Ok(declaration) => {
                    let ghost prev = out@;
                    out.push(UniformBinding { name: field.name.clone(), is_texture: texture, declaration });
                    assert(out@.map_values(|b: UniformBinding| spec_binding_view(b)) =~= prev.map_values(
                        |b: UniformBinding| spec_binding_view(b),
                    ).push((field.name@, texture, declaration@)));
                },
                Err(e) => {
                    proof {
                        lemma_bindings_stay_err(fields@, (i + 1) as nat, fields@.len());
                    }
                    return Err(e);
                },
            }
        }
        i = i + 1;
    }
    Ok(out)
}

} // verus!
